use camofy::app::AuthSession;
use camofy::auth::token_from_query;
use camofy::auth::validate_token;
use camofy::config::AppConfig;
use camofy::config::ProfileMeta;
use camofy::config::ProfileType;
use camofy::config::ProxySelectionRecord;
use camofy::engine::archive_kind;
use camofy::engine::map_arch_to_mihomo_arch;
use camofy::engine::ArchiveKind;
use camofy::events::update_core_operation_state;
use camofy::events::CoreOperationKind;
use camofy::events::CoreOperationState;
use camofy::events::CoreOperationStatus;
use camofy::events::Progress;
use camofy::logs::effective_log_max_bytes;
use camofy::logs::write_log_with_rotation_and_space_guard;
use camofy::logs::LogWriteAction;
use camofy::logs::LogWriteEvent;
use camofy::logs::LogWriteState;
use camofy::mihomo::apply_saved_proxy_selection;
use camofy::mihomo::fetch_proxies_view;
use camofy::mihomo::DelayEntry;
use camofy::mihomo::ProxyRaw;
use camofy::selection::get_proxy_selections_for_active_profile;
use camofy::selection::update_proxy_selection_for_current_profile;
use camofy::subscriptions::delete_subscription;
use camofy::user_profiles::delete_user_profile;
use std::collections::HashMap;

struct Dice(u64);

impl Dice {
    fn roll(&mut self, sides: u64) -> u64 {
        self.0 = self.0.wrapping_mul(6364136223846793005).wrapping_add(1442695040888963407);
        (self.0 >> 33) % sides
    }

    fn pick<'a>(&mut self, from: &[&'a str]) -> &'a str {
        from[self.roll(from.len() as u64) as usize]
    }

    fn maybe(&mut self, from: &[&str]) -> Option<String> {
        if self.roll(3) == 0 {
            None
        } else {
            Some(self.pick(from).to_string())
        }
    }
}

type PlainSets = Vec<(Option<String>, Option<String>, Vec<(String, String)>)>;

fn plain_record(sets: &mut PlainSets, sub: &Option<String>, user: &Option<String>, group: &str, node: &str) {
    let index = match sets.iter().position(|s| &s.0 == sub && &s.1 == user) {
        Some(i) => i,
        None => {
            sets.push((sub.clone(), user.clone(), Vec::new()));
            sets.len() - 1
        }
    };
    let set = &mut sets[index];
    if let Some(rec) = set.2.iter_mut().find(|r| r.0 == group) {
        rec.1 = node.to_string();
    } else {
        set.2.push((group.to_string(), node.to_string()));
    }
}

#[test]
fn selection_memory_agrees_with_a_plain_list() {
    let mut dice = Dice(31);
    let ids = ["s1", "s2", "u1"];
    let groups = ["G", "H", "I"];
    let nodes = ["a", "b", "c"];
    for _ in 0..200 {
        let mut config = AppConfig::default();
        let mut plain: PlainSets = Vec::new();
        for _ in 0..30 {
            config.active_subscription_id = dice.maybe(&ids);
            config.active_user_profile_id = dice.maybe(&ids);
            let group = dice.pick(&groups);
            let node = dice.pick(&nodes);
            let before = get_proxy_selections_for_active_profile(&config).map(|s| s.len()).unwrap_or(0);
            update_proxy_selection_for_current_profile(&mut config, group, node);
            plain_record(
                &mut plain,
                &config.active_subscription_id,
                &config.active_user_profile_id,
                group,
                node,
            );
            let got: PlainSets = config
                .proxy_selections
                .iter()
                .map(|s| {
                    (
                        s.subscription_id.clone(),
                        s.user_profile_id.clone(),
                        s.selections.iter().map(|r| (r.group.clone(), r.node.clone())).collect(),
                    )
                })
                .collect();
            assert_eq!(got, plain);
            let current = get_proxy_selections_for_active_profile(&config).expect("current");
            assert_eq!(current.iter().filter(|r| r.group == group).count(), 1);
            assert!(current.iter().any(|r| r.group == group && r.node == node));
            assert!(current.len() == before || current.len() == before + 1);
        }
    }
}

#[test]
fn sessions_agree_with_retain_and_any() {
    let mut dice = Dice(37);
    let tokens = ["a", "b", "c", "d"];
    for _ in 0..2000 {
        let mut sessions: Vec<AuthSession> = (0..dice.roll(6))
            .map(|_| AuthSession { token: dice.pick(&tokens).to_string(), expires_at: dice.roll(10) })
            .collect();
        let mut plain: Vec<(String, u64)> = sessions.iter().map(|s| (s.token.clone(), s.expires_at)).collect();
        let now = dice.roll(10);
        let token = dice.pick(&tokens);
        plain.retain(|s| s.1 > now);
        let want = plain.iter().any(|s| s.0 == token);
        assert_eq!(validate_token(&mut sessions, token, now), want);
        let left: Vec<(String, u64)> = sessions.iter().map(|s| (s.token.clone(), s.expires_at)).collect();
        assert_eq!(left, plain);
    }
}

#[test]
fn query_tokens_agree_with_plain_splitting() {
    let mut dice = Dice(41);
    let pieces = ["token=", "token", "a=1", "&", "=", "x", "tok", "en=", "&token=z"];
    for _ in 0..3000 {
        let query: String = (0..dice.roll(6)).map(|_| dice.pick(&pieces)).collect();
        let mut want = None;
        for pair in query.split('&') {
            if let Some(rest) = pair.strip_prefix("token=") {
                want = Some(rest.to_string());
                break;
            }
        }
        assert_eq!(token_from_query(&query), want, "{query:?}");
    }
}

#[test]
fn rotation_limit_agrees_with_saturating_arithmetic() {
    let mut dice = Dice(43);
    for round in 0..5000 {
        let free = match round % 4 {
            0 => dice.roll(3_000_000),
            1 => u64::MAX - dice.roll(1000),
            2 => dice.roll(200),
            _ => (u64::MAX / 80).wrapping_add(dice.roll(5)).wrapping_sub(2),
        };
        let mut want: u64 = 1024 * 1024;
        let cap = free.saturating_mul(80).saturating_div(100);
        if cap > 0 {
            want = want.min(cap);
        }
        assert_eq!(effective_log_max_bytes(Some(free)), want, "{free}");
    }
}

struct PlainDisk {
    free: Vec<Option<u64>>,
    asked: usize,
    cleaned: usize,
    warned: usize,
}

impl PlainDisk {
    fn ask(&mut self) -> Option<u64> {
        let answer = self.free[self.asked % self.free.len()];
        self.asked += 1;
        answer
    }
}

fn plain_write(state: &mut LogWriteState, disk: &mut PlainDisk, len: usize) -> bool {
    if state.logging_disabled {
        return false;
    }
    state.bytes_since_last_disk_check = state.bytes_since_last_disk_check.saturating_add(len as u64);
    if state.bytes_since_last_disk_check >= 64 * 1024 {
        state.bytes_since_last_disk_check = 0;
        if let Some(free) = disk.ask() {
            if free < 1024 * 1024 {
                disk.cleaned += 1;
                if let Some(after) = disk.ask() {
                    if after < 1024 * 1024 {
                        state.logging_disabled = true;
                        if !state.warning_emitted {
                            state.warning_emitted = true;
                            disk.warned += 1;
                        }
                        return false;
                    }
                }
            }
        }
    }
    true
}

fn guarded_write(state: &mut LogWriteState, disk: &mut PlainDisk, len: usize) -> bool {
    let mut action = write_log_with_rotation_and_space_guard(state, LogWriteEvent::Write { len });
    loop {
        match action {
            LogWriteAction::Discard => return false,
            LogWriteAction::QueryFreeSpace => {
                let free = disk.ask();
                action = write_log_with_rotation_and_space_guard(state, LogWriteEvent::FreeSpace(free));
            }
            LogWriteAction::CleanupThenQuery => {
                disk.cleaned += 1;
                let free = disk.ask();
                action =
                    write_log_with_rotation_and_space_guard(state, LogWriteEvent::FreeSpaceAfterCleanup(free));
            }
            LogWriteAction::Disable { warn } => {
                if warn {
                    disk.warned += 1;
                }
                return false;
            }
            LogWriteAction::RotateAndAppend => return true,
        }
    }
}

#[test]
fn guarded_writes_agree_with_a_plain_writer() {
    let mut dice = Dice(47);
    for _ in 0..500 {
        let answers: Vec<Option<u64>> = (0..1 + dice.roll(4))
            .map(|_| match dice.roll(4) {
                0 => None,
                1 => Some(dice.roll(1024 * 1024)),
                _ => Some(1024 * 1024 + dice.roll(5000)),
            })
            .collect();
        let mut disk_a = PlainDisk { free: answers.clone(), asked: 0, cleaned: 0, warned: 0 };
        let mut disk_b = PlainDisk { free: answers, asked: 0, cleaned: 0, warned: 0 };
        let mut state_a = LogWriteState::default();
        let mut state_b = LogWriteState::default();
        for _ in 0..60 {
            let len = dice.roll(40_000) as usize;
            assert_eq!(
                guarded_write(&mut state_a, &mut disk_a, len),
                plain_write(&mut state_b, &mut disk_b, len)
            );
            assert_eq!(state_a, state_b);
            assert_eq!((disk_a.asked, disk_a.cleaned, disk_a.warned), (disk_b.asked, disk_b.cleaned, disk_b.warned));
            assert!(disk_a.warned <= 1);
        }
    }
}

#[test]
fn architectures_and_archives_agree_with_plain_matching() {
    let mut dice = Dice(53);
    let pieces = ["x86_64", "amd64", "aarch64", "arm", "v7", "v8", "mips", "el", "le", "64", "ARM", "X", ".tar", ".gz", ".tgz", "."];
    for _ in 0..4000 {
        let text: String = (0..1 + dice.roll(3)).map(|_| dice.pick(&pieces)).collect();
        let arch = text.to_lowercase();
        let want = if arch == "x86_64" || arch == "amd64" {
            Some("linux-amd64")
        } else if arch == "aarch64" || arch == "arm64" {
            Some("linux-arm64")
        } else if arch.starts_with("armv7") {
            Some("linux-armv7")
        } else if arch.starts_with("armv8") {
            Some("linux-armv8")
        } else if arch.starts_with("mipsel") || arch.starts_with("mipsle") {
            Some("linux-mipsle")
        } else if arch.starts_with("mips") {
            Some("linux-mips")
        } else {
            None
        };
        assert_eq!(map_arch_to_mihomo_arch(&text), want, "{text:?}");
        let kind = if arch.ends_with(".tar.gz") || arch.ends_with(".tgz") {
            ArchiveKind::TarGz
        } else if arch.ends_with(".gz") {
            ArchiveKind::Gz
        } else {
            ArchiveKind::Raw
        };
        assert_eq!(archive_kind(&arch), kind, "{arch:?}");
    }
}

fn profile(id: &str, kind: ProfileType) -> ProfileMeta {
    ProfileMeta {
        id: id.to_string(),
        name: String::new(),
        profile_type: kind,
        path: String::new(),
        url: None,
        last_fetch_time: None,
        last_fetch_status: None,
        last_modified_time: None,
    }
}

#[test]
fn deletions_agree_with_retain() {
    let mut dice = Dice(59);
    let ids = ["a", "b", "c"];
    for _ in 0..3000 {
        let mut config = AppConfig::default();
        for _ in 0..dice.roll(6) {
            let kind = if dice.roll(2) == 0 { ProfileType::Remote } else { ProfileType::User };
            config.profiles.push(profile(dice.pick(&ids), kind));
        }
        config.active_subscription_id = dice.maybe(&ids);
        config.active_user_profile_id = dice.maybe(&ids);
        let id = dice.pick(&ids);
        let remote = dice.roll(2) == 0;
        let kind = if remote { ProfileType::Remote } else { ProfileType::User };
        let mut plain: Vec<(String, ProfileType)> =
            config.profiles.iter().map(|p| (p.id.clone(), p.profile_type)).collect();
        let mut active_sub = config.active_subscription_id.clone();
        let mut active_user = config.active_user_profile_id.clone();
        let before = plain.len();
        plain.retain(|p| !(p.1 == kind && p.0 == id));
        let removed = plain.len() != before;
        if removed {
            if remote && active_sub.as_deref() == Some(id) {
                active_sub = plain.iter().find(|p| p.1 == ProfileType::Remote).map(|p| p.0.clone());
            }
            if !remote && active_user.as_deref() == Some(id) {
                active_user = None;
            }
        }
        let result = if remote { delete_subscription(&mut config, id) } else { delete_user_profile(&mut config, id) };
        assert_eq!(result.is_ok(), removed);
        let got: Vec<(String, ProfileType)> =
            config.profiles.iter().map(|p| (p.id.clone(), p.profile_type)).collect();
        assert_eq!(got, plain);
        assert_eq!(config.active_subscription_id, active_sub);
        assert_eq!(config.active_user_profile_id, active_user);
    }
}

fn plain_state(
    slot: &mut Option<CoreOperationState>,
    kind: CoreOperationKind,
    status: CoreOperationStatus,
    message: Option<String>,
    progress: Option<Progress>,
    finished: bool,
    now: &str,
) {
    let mut state = match slot.take() {
        Some(existing) if existing.kind == kind => {
            let mut updated = existing;
            updated.status = status;
            updated.message = message.clone();
            if let Some(p) = progress {
                updated.progress = Some(p);
            }
            if finished {
                updated.finished_at = Some(now.to_string());
            }
            updated
        }
        _ => CoreOperationState {
            kind,
            status,
            message: message.clone(),
            progress,
            started_at: now.to_string(),
            finished_at: if finished { Some(now.to_string()) } else { None },
        },
    };
    if matches!(status, CoreOperationStatus::Running) && !finished {
        state.started_at = now.to_string();
        state.finished_at = None;
    }
    *slot = Some(state);
}

fn shown(state: &Option<CoreOperationState>) -> String {
    format!("{state:?}")
}

#[test]
fn operation_states_agree_with_plain_updates() {
    let mut dice = Dice(61);
    let kinds = [CoreOperationKind::Start, CoreOperationKind::Stop, CoreOperationKind::Download];
    let statuses = [
        CoreOperationStatus::Pending,
        CoreOperationStatus::Running,
        CoreOperationStatus::Success,
        CoreOperationStatus::Error,
    ];
    for _ in 0..300 {
        let mut got: Option<CoreOperationState> = None;
        let mut want: Option<CoreOperationState> = None;
        for step in 0..20 {
            let kind = kinds[dice.roll(3) as usize];
            let status = statuses[dice.roll(4) as usize];
            let message = dice.maybe(&["m", "n"]);
            let progress = if dice.roll(2) == 0 { None } else { Some(Progress { received: dice.roll(5), total: 5 }) };
            let finished = dice.roll(2) == 0;
            let now = format!("{step}");
            let out = update_core_operation_state(&mut got, kind, status, message.clone(), progress, finished, &now);
            plain_state(&mut want, kind, status, message, progress, finished, &now);
            assert_eq!(shown(&got), shown(&want));
            assert_eq!(shown(&Some(out)), shown(&want));
        }
    }
}

fn plain_view(raws: &[ProxyRaw]) -> (Vec<String>, HashMap<String, Vec<(String, String, Option<u32>)>>) {
    let by_name: HashMap<&str, &ProxyRaw> = raws.iter().map(|p| (p.name.as_str(), p)).collect();
    let mut groups: HashMap<String, Vec<(String, String, Option<u32>)>> = HashMap::new();
    for proxy in raws {
        let Some(all) = proxy.all.as_ref() else {
            continue;
        };
        let nodes = all
            .iter()
            .map(|name| match by_name.get(name.as_str()) {
                Some(node) => (
                    node.name.clone(),
                    node.proxy_type.clone().unwrap_or_else(|| "unknown".to_string()),
                    node.history.last().and_then(|h| h.delay),
                ),
                None => (name.clone(), "unknown".to_string(), None),
            })
            .collect();
        groups.insert(proxy.name.clone(), nodes);
    }
    let mut pinned = Vec::new();
    if let Some(global) = by_name.get("GLOBAL") {
        if let Some(all) = global.all.as_ref() {
            for name in all {
                if groups.contains_key(name) && !pinned.contains(name) {
                    pinned.push(name.clone());
                }
            }
        }
    }
    (pinned, groups)
}

#[test]
fn proxy_views_agree_with_a_plain_map() {
    let mut dice = Dice(67);
    let names = ["A", "B", "C", "G1", "G2", "G3", "GLOBAL"];
    for _ in 0..2000 {
        let mut raws: Vec<ProxyRaw> = Vec::new();
        for name in names {
            if dice.roll(4) == 0 {
                continue;
            }
            let members: Vec<String> = (0..dice.roll(5)).map(|_| dice.pick(&names).to_string()).collect();
            raws.push(ProxyRaw {
                name: name.to_string(),
                proxy_type: dice.maybe(&["Selector", "ss", "URLTest"]),
                all: if name.starts_with('G') && dice.roll(5) != 0 { Some(members) } else { None },
                now: dice.maybe(&names),
                history: (0..dice.roll(3))
                    .map(|_| DelayEntry { delay: if dice.roll(2) == 0 { None } else { Some(dice.roll(500) as u32) } })
                    .collect(),
            });
        }
        for i in (1..raws.len()).rev() {
            let j = dice.roll(i as u64 + 1) as usize;
            raws.swap(i, j);
        }
        let view = fetch_proxies_view(&raws);
        let (pinned, groups) = plain_view(&raws);
        let shown: Vec<String> = view.groups.iter().map(|g| g.name.clone()).collect();
        assert_eq!(shown.len(), groups.len());
        assert_eq!(&shown[..pinned.len()], &pinned[..]);
        let rest: Vec<String> = raws
            .iter()
            .filter(|p| groups.contains_key(&p.name) && !pinned.contains(&p.name))
            .map(|p| p.name.clone())
            .collect();
        assert_eq!(&shown[pinned.len()..], &rest[..]);
        for group in &view.groups {
            let nodes: Vec<(String, String, Option<u32>)> =
                group.nodes.iter().map(|n| (n.name.clone(), n.proxy_type.clone(), n.delay)).collect();
            assert_eq!(&nodes, groups.get(&group.name).expect("group"));
        }
    }
}

#[test]
fn due_selections_agree_with_a_plain_filter() {
    let mut dice = Dice(71);
    let names = ["A", "B", "C", "G1", "G2", "GLOBAL"];
    let kinds = ["Selector", "selector", "URLTest", "Fallback", "LoadBalance", "Relay", "Direct"];
    for _ in 0..2000 {
        let mut raws: Vec<ProxyRaw> = Vec::new();
        for name in names {
            let members: Vec<String> = (0..dice.roll(4)).map(|_| dice.pick(&names).to_string()).collect();
            raws.push(ProxyRaw {
                name: name.to_string(),
                proxy_type: Some(dice.pick(&kinds).to_string()),
                all: if name.starts_with('G') { Some(members) } else { None },
                now: dice.maybe(&names),
                history: Vec::new(),
            });
        }
        let view = fetch_proxies_view(&raws);
        let saved: Vec<ProxySelectionRecord> = (0..dice.roll(6))
            .map(|_| ProxySelectionRecord {
                group: dice.pick(&["G1", "G2", "GLOBAL", "A", "gone"]).to_string(),
                node: dice.pick(&names).to_string(),
            })
            .collect();
        let mut want: Vec<(String, String)> = Vec::new();
        for record in &saved {
            let Some(group) = view.groups.iter().find(|g| g.name == record.group) else {
                continue;
            };
            let selectable = ["Selector", "URLTest", "Fallback", "LoadBalance"]
                .iter()
                .any(|t| t.eq_ignore_ascii_case(group.group_type.as_str()));
            if !selectable && group.name != "GLOBAL" {
                continue;
            }
            if group.now.as_deref() == Some(record.node.as_str()) {
                continue;
            }
            if !group.nodes.iter().any(|n| n.name == record.node) {
                continue;
            }
            want.push((group.name.clone(), record.node.clone()));
        }
        let got: Vec<(String, String)> =
            apply_saved_proxy_selection(&saved, &view).into_iter().map(|r| (r.group, r.node)).collect();
        assert_eq!(got, want);
    }
}
