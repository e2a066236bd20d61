//! The application's configuration: profiles, the active pair, scheduled
//! tasks and the remembered proxy selections.

use vstd::prelude::*;

verus! {

/// The kind of a profile: fetched from a subscription, or written by the user.
#[derive(Clone, Copy, PartialEq, Eq, Structural, Debug)]
pub enum ProfileType {
    Remote,
    User,
}

/// The text of an optional string.
pub open spec fn opt_text(value: Option<String>) -> Option<Seq<char>> {
    match value {
        Some(s) => Some(s@),
        None => None,
    }
}

/// A copy of an optional string.
pub fn copy_opt(value: &Option<String>) -> (r: Option<String>)
    ensures
        opt_text(r) == opt_text(*value),
{
    match value {
        Some(s) => Some(s.clone()),
        None => None,
    }
}

/// Whether an optional string holds the given text.
pub fn opt_is(value: &Option<String>, text: &str) -> (r: bool)
    ensures
        r == (opt_text(*value) == Some(text@)),
{
    match value {
        Some(s) => *s.as_str() == *text,
        None => false,
    }
}

/// Whether two optional strings are both absent or hold the same text.
pub fn opt_same(a: &Option<String>, b: &Option<String>) -> (r: bool)
    ensures
        r == (opt_text(*a) == opt_text(*b)),
{
    match (a, b) {
        (Some(x), Some(y)) => *x == *y,
        (None, None) => true,
        _ => false,
    }
}

/// What is recorded of one profile.
#[derive(Debug)]
pub struct ProfileMeta {
    pub id: String,
    pub name: String,
    pub profile_type: ProfileType,
    /// Where the profile's YAML lies, relative to the configuration directory.
    pub path: String,
    pub url: Option<String>,
    pub last_fetch_time: Option<String>,
    pub last_fetch_status: Option<String>,
    pub last_modified_time: Option<String>,
}

/// The model of a profile's record.
pub struct ProfileModel {
    pub id: Seq<char>,
    pub name: Seq<char>,
    pub profile_type: ProfileType,
    pub path: Seq<char>,
    pub url: Option<Seq<char>>,
    pub last_fetch_time: Option<Seq<char>>,
    pub last_fetch_status: Option<Seq<char>>,
    pub last_modified_time: Option<Seq<char>>,
}

impl View for ProfileMeta {
    type V = ProfileModel;

    open spec fn view(&self) -> ProfileModel {
        ProfileModel {
            id: self.id@,
            name: self.name@,
            profile_type: self.profile_type,
            path: self.path@,
            url: opt_text(self.url),
            last_fetch_time: opt_text(self.last_fetch_time),
            last_fetch_status: opt_text(self.last_fetch_status),
            last_modified_time: opt_text(self.last_modified_time),
        }
    }
}

impl ProfileMeta {
    /// A copy of the record.
    pub fn copy(&self) -> (r: ProfileMeta)
        ensures
            r@ == self@,
    {
        ProfileMeta {
            id: self.id.clone(),
            name: self.name.clone(),
            profile_type: self.profile_type,
            path: self.path.clone(),
            url: copy_opt(&self.url),
            last_fetch_time: copy_opt(&self.last_fetch_time),
            last_fetch_status: copy_opt(&self.last_fetch_status),
            last_modified_time: copy_opt(&self.last_modified_time),
        }
    }

    /// Whether the record is of the given kind and has the given id.
    pub fn is(&self, kind: ProfileType, id: &str) -> (r: bool)
        ensures
            r == self@.is(kind, id@),
    {
        self.profile_type == kind && *self.id.as_str() == *id
    }
}

impl ProfileModel {
    /// Whether the record is of the given kind and has the given id.
    pub open spec fn is(self, kind: ProfileType, id: Seq<char>) -> bool {
        self.profile_type == kind && self.id == id
    }
}

/// A periodic task's schedule and the outcome of its last run.
#[derive(Debug)]
pub struct ScheduledTaskConfig {
    /// Five fields: minute, hour, day of month, month, day of week.
    pub cron: String,
    pub enabled: bool,
    pub last_run_time: Option<String>,
    pub last_run_status: Option<String>,
    pub last_run_message: Option<String>,
}

/// The model of a task's configuration.
pub struct TaskModel {
    pub cron: Seq<char>,
    pub enabled: bool,
    pub last_run_time: Option<Seq<char>>,
    pub last_run_status: Option<Seq<char>>,
    pub last_run_message: Option<Seq<char>>,
}

impl View for ScheduledTaskConfig {
    type V = TaskModel;

    open spec fn view(&self) -> TaskModel {
        TaskModel {
            cron: self.cron@,
            enabled: self.enabled,
            last_run_time: opt_text(self.last_run_time),
            last_run_status: opt_text(self.last_run_status),
            last_run_message: opt_text(self.last_run_message),
        }
    }
}

/// The model of a task's configuration that may be absent.
pub open spec fn opt_task(task: Option<ScheduledTaskConfig>) -> Option<TaskModel> {
    match task {
        Some(t) => Some(t@),
        None => None,
    }
}

/// The schedule that a task has until the user sets one: enabled, daily at
/// three in the morning.
pub open spec fn default_task() -> TaskModel {
    TaskModel {
        cron: "0 3 * * *"@,
        enabled: true,
        last_run_time: None,
        last_run_status: None,
        last_run_message: None,
    }
}

impl ScheduledTaskConfig {
    /// A copy of the configuration.
    pub fn copy(&self) -> (r: ScheduledTaskConfig)
        ensures
            r@ == self@,
    {
        ScheduledTaskConfig {
            cron: self.cron.clone(),
            enabled: self.enabled,
            last_run_time: copy_opt(&self.last_run_time),
            last_run_status: copy_opt(&self.last_run_status),
            last_run_message: copy_opt(&self.last_run_message),
        }
    }

    /// The schedule that a task has until the user sets one.
    pub fn daily() -> (r: ScheduledTaskConfig)
        ensures
            r@ == default_task(),
    {
        ScheduledTaskConfig {
            cron: "0 3 * * *".to_owned(),
            enabled: true,
            last_run_time: None,
            last_run_status: None,
            last_run_message: None,
        }
    }
}

impl Default for ScheduledTaskConfig {
    fn default() -> (r: ScheduledTaskConfig)
        ensures
            r@ == (TaskModel {
                cron: Seq::empty(),
                enabled: false,
                last_run_time: None,
                last_run_status: None,
                last_run_message: None,
            }),
    {
        ScheduledTaskConfig {
            cron: String::new(),
            enabled: false,
            last_run_time: None,
            last_run_status: None,
            last_run_message: None,
        }
    }
}

/// A copy of a task's configuration that may be absent.
pub fn copy_task(task: &Option<ScheduledTaskConfig>) -> (r: Option<ScheduledTaskConfig>)
    ensures
        opt_task(r) == opt_task(*task),
{
    match task {
        Some(t) => Some(t.copy()),
        None => None,
    }
}

/// The node chosen in one proxy group.
#[derive(Debug)]
pub struct ProxySelectionRecord {
    pub group: String,
    pub node: String,
}

impl View for ProxySelectionRecord {
    type V = (Seq<char>, Seq<char>);

    open spec fn view(&self) -> (Seq<char>, Seq<char>) {
        (self.group@, self.node@)
    }
}

/// The models of a sequence of selections: pairs of group and node.
pub open spec fn record_models(records: Seq<ProxySelectionRecord>) -> Seq<(Seq<char>, Seq<char>)> {
    Seq::new(records.len(), |i: int| records[i]@)
}

/// The selections remembered for one pair of active subscription and active
/// user profile.
#[derive(Debug)]
pub struct ProxySelectionSet {
    pub subscription_id: Option<String>,
    pub user_profile_id: Option<String>,
    pub selections: Vec<ProxySelectionRecord>,
}

/// The model of a set of selections.
pub struct SelectionSetModel {
    pub subscription_id: Option<Seq<char>>,
    pub user_profile_id: Option<Seq<char>>,
    pub selections: Seq<(Seq<char>, Seq<char>)>,
}

impl View for ProxySelectionSet {
    type V = SelectionSetModel;

    open spec fn view(&self) -> SelectionSetModel {
        SelectionSetModel {
            subscription_id: opt_text(self.subscription_id),
            user_profile_id: opt_text(self.user_profile_id),
            selections: record_models(self.selections@),
        }
    }
}

/// The models of a sequence of profiles.
pub open spec fn profile_models(profiles: Seq<ProfileMeta>) -> Seq<ProfileModel> {
    Seq::new(profiles.len(), |i: int| profiles[i]@)
}

/// The models of a sequence of selection sets.
pub open spec fn set_models(sets: Seq<ProxySelectionSet>) -> Seq<SelectionSetModel> {
    Seq::new(sets.len(), |i: int| sets[i]@)
}

/// The persisted root of the application's state.
#[derive(Debug)]
pub struct AppConfig {
    pub profiles: Vec<ProfileMeta>,
    pub active_subscription_id: Option<String>,
    pub active_user_profile_id: Option<String>,
    /// The password verifier; its presence switches authentication on.
    pub panel_password_hash: Option<String>,
    /// The user's last explicit intent for the engine: running or not.
    pub core_auto_start: bool,
    pub subscription_auto_update: Option<ScheduledTaskConfig>,
    pub geoip_auto_update: Option<ScheduledTaskConfig>,
    pub proxy_selections: Vec<ProxySelectionSet>,
}

/// The model of the application's configuration.
pub struct ConfigModel {
    pub profiles: Seq<ProfileModel>,
    pub active_subscription_id: Option<Seq<char>>,
    pub active_user_profile_id: Option<Seq<char>>,
    pub panel_password_hash: Option<Seq<char>>,
    pub core_auto_start: bool,
    pub subscription_auto_update: Option<TaskModel>,
    pub geoip_auto_update: Option<TaskModel>,
    pub proxy_selections: Seq<SelectionSetModel>,
}

impl View for AppConfig {
    type V = ConfigModel;

    open spec fn view(&self) -> ConfigModel {
        ConfigModel {
            profiles: profile_models(self.profiles@),
            active_subscription_id: opt_text(self.active_subscription_id),
            active_user_profile_id: opt_text(self.active_user_profile_id),
            panel_password_hash: opt_text(self.panel_password_hash),
            core_auto_start: self.core_auto_start,
            subscription_auto_update: opt_task(self.subscription_auto_update),
            geoip_auto_update: opt_task(self.geoip_auto_update),
            proxy_selections: set_models(self.proxy_selections@),
        }
    }
}

impl Default for AppConfig {
    fn default() -> (r: AppConfig)
        ensures
            r@ == ConfigModel::empty(),
    {
        let r = AppConfig {
            profiles: Vec::new(),
            active_subscription_id: None,
            active_user_profile_id: None,
            panel_password_hash: None,
            core_auto_start: false,
            subscription_auto_update: None,
            geoip_auto_update: None,
            proxy_selections: Vec::new(),
        };
        assert(r@.profiles =~= Seq::empty());
        assert(r@.proxy_selections =~= Seq::empty());
        r
    }
}

impl ConfigModel {
    /// The configuration of a fresh installation, before defaults are applied.
    pub open spec fn empty() -> ConfigModel {
        ConfigModel {
            profiles: Seq::empty(),
            active_subscription_id: None,
            active_user_profile_id: None,
            panel_password_hash: None,
            core_auto_start: false,
            subscription_auto_update: None,
            geoip_auto_update: None,
            proxy_selections: Seq::empty(),
        }
    }

    /// Whether some profile is of the given kind and has the given id.
    pub open spec fn has_profile(self, kind: ProfileType, id: Seq<char>) -> bool {
        exists|i: int| 0 <= i < self.profiles.len() && (#[trigger] self.profiles[i]).is(kind, id)
    }

    /// The configuration with a schedule for each task that has none.
    pub open spec fn with_defaults(self) -> ConfigModel {
        ConfigModel {
            subscription_auto_update: match self.subscription_auto_update {
                Some(t) => Some(t),
                None => Some(default_task()),
            },
            geoip_auto_update: match self.geoip_auto_update {
                Some(t) => Some(t),
                None => Some(default_task()),
            },
            ..self
        }
    }

    /// The active ids point at profiles of the right kind: the active
    /// subscription at a remote profile, the active user profile at a user
    /// profile.
    pub open spec fn active_ids_valid(self) -> bool {
        &&& self.active_subscription_id matches Some(id) ==> self.has_profile(
            ProfileType::Remote,
            id,
        )
        &&& self.active_user_profile_id matches Some(id) ==> self.has_profile(
            ProfileType::User,
            id,
        )
    }
}

/// Whether `i` is the position of the first profile of a kind with an id.
pub open spec fn is_profile_at(profiles: Seq<ProfileModel>, kind: ProfileType, id: Seq<char>, i: int)
    -> bool {
    &&& 0 <= i < profiles.len()
    &&& profiles[i].is(kind, id)
    &&& forall|j: int| 0 <= j < i ==> !(#[trigger] profiles[j]).is(kind, id)
}

/// The position of the first profile of a kind with an id, where there is
/// one.
pub open spec fn profile_index(profiles: Seq<ProfileModel>, kind: ProfileType, id: Seq<char>)
    -> Option<int> {
    if exists|i: int| is_profile_at(profiles, kind, id, i) {
        Some(choose|i: int| is_profile_at(profiles, kind, id, i))
    } else {
        None
    }
}

/// Whether `i` is the position of the first profile of a kind.
pub open spec fn is_kind_at(profiles: Seq<ProfileModel>, kind: ProfileType, i: int) -> bool {
    &&& 0 <= i < profiles.len()
    &&& profiles[i].profile_type == kind
    &&& forall|j: int| 0 <= j < i ==> (#[trigger] profiles[j]).profile_type != kind
}

/// The position of the first profile of a kind, where there is one.
pub open spec fn kind_index(profiles: Seq<ProfileModel>, kind: ProfileType) -> Option<int> {
    if exists|i: int| is_kind_at(profiles, kind, i) {
        Some(choose|i: int| is_kind_at(profiles, kind, i))
    } else {
        None
    }
}

/// The profiles without those of a kind with an id, in their order.
pub open spec fn without(profiles: Seq<ProfileModel>, kind: ProfileType, id: Seq<char>) -> Seq<
    ProfileModel,
>
    decreases profiles.len(),
{
    if profiles.len() == 0 {
        Seq::empty()
    } else {
        let rest = without(profiles.drop_last(), kind, id);
        if profiles.last().is(kind, id) {
            rest
        } else {
            rest.push(profiles.last())
        }
    }
}

/// Taking profiles out leaves no more than there were, and leaves all as they
/// were where it leaves as many.
pub proof fn lemma_without_len(profiles: Seq<ProfileModel>, kind: ProfileType, id: Seq<char>)
    ensures
        without(profiles, kind, id).len() <= profiles.len(),
        without(profiles, kind, id).len() == profiles.len() ==> without(profiles, kind, id)
            == profiles,
    decreases profiles.len(),
{
    if profiles.len() > 0 {
        lemma_without_len(profiles.drop_last(), kind, id);
        if without(profiles, kind, id).len() == profiles.len() {
            assert(profiles.drop_last().push(profiles.last()) =~= profiles);
        }
    }
}

/// Taking profiles out keeps every profile that is not taken out.
pub proof fn lemma_without_keeps(profiles: Seq<ProfileModel>, kind: ProfileType, id: Seq<char>, j: int)
    requires
        0 <= j < profiles.len(),
        !profiles[j].is(kind, id),
    ensures
        exists|k: int|
            0 <= k < without(profiles, kind, id).len() && #[trigger] without(profiles, kind, id)[k]
                == profiles[j],
    decreases profiles.len(),
{
    let left = without(profiles, kind, id);
    if j == profiles.len() - 1 {
        assert(left[left.len() - 1] == profiles[j]);
    } else {
        lemma_without_keeps(profiles.drop_last(), kind, id, j);
        let front = without(profiles.drop_last(), kind, id);
        let k = choose|k: int| 0 <= k < front.len() && #[trigger] front[k] == profiles.drop_last()[j];
        assert(left[k] == profiles[j]);
    }
}

/// The position of the first profile of a kind with an id.
pub fn find_profile(profiles: &Vec<ProfileMeta>, kind: ProfileType, id: &str) -> (r: Option<usize>)
    ensures
        match r {
            Some(i) => profile_index(profile_models(profiles@), kind, id@) == Some(i as int)
                && is_profile_at(profile_models(profiles@), kind, id@, i as int),
            None => profile_index(profile_models(profiles@), kind, id@) is None && forall|j: int|
                0 <= j < profiles.len() ==> !(#[trigger] profile_models(profiles@)[j]).is(kind, id@),
        },
        r is Some <==> (exists|j: int|
            0 <= j < profiles.len() && (#[trigger] profile_models(profiles@)[j]).is(kind, id@)),
{
    let ghost models = profile_models(profiles@);
    let mut i: usize = 0;
    while i < profiles.len()
        invariant
            i <= profiles.len(),
            models == profile_models(profiles@),
            forall|j: int| 0 <= j < i ==> !(#[trigger] models[j]).is(kind, id@),
        decreases profiles.len() - i,
    {
        assert(models[i as int] == profiles[i as int]@);
        if profiles[i].is(kind, id) {
            assert(is_profile_at(models, kind, id@, i as int));
            let ghost k = choose|k: int| is_profile_at(models, kind, id@, k);
            assert(k == i) by {
                if k < i {
                    assert(!models[k].is(kind, id@));
                }
                if i < k {
                    assert(!models[i as int].is(kind, id@));
                }
            }
            return Some(i);
        }
        i += 1;
    }
    assert forall|k: int| !is_profile_at(models, kind, id@, k) by {
        if is_profile_at(models, kind, id@, k) {
            assert(!models[k].is(kind, id@));
        }
    }
    None
}

/// The position of the first profile of a kind.
pub fn find_kind(profiles: &Vec<ProfileMeta>, kind: ProfileType) -> (r: Option<usize>)
    ensures
        match r {
            Some(i) => kind_index(profile_models(profiles@), kind) == Some(i as int) && is_kind_at(
                profile_models(profiles@),
                kind,
                i as int,
            ),
            None => kind_index(profile_models(profiles@), kind) is None,
        },
{
    let ghost models = profile_models(profiles@);
    let mut i: usize = 0;
    while i < profiles.len()
        invariant
            i <= profiles.len(),
            models == profile_models(profiles@),
            forall|j: int| 0 <= j < i ==> (#[trigger] models[j]).profile_type != kind,
        decreases profiles.len() - i,
    {
        assert(models[i as int] == profiles[i as int]@);
        if profiles[i].profile_type == kind {
            assert(is_kind_at(models, kind, i as int));
            let ghost k = choose|k: int| is_kind_at(models, kind, k);
            assert(k == i) by {
                if k < i {
                    assert(models[k].profile_type != kind);
                }
                if i < k {
                    assert(models[i as int].profile_type != kind);
                }
            }
            return Some(i);
        }
        i += 1;
    }
    assert forall|k: int| !is_kind_at(models, kind, k) by {
        if is_kind_at(models, kind, k) {
            assert(models[k].profile_type != kind);
        }
    }
    None
}

/// Takes out the profiles of a kind with an id and says whether there was one.
pub fn remove_profiles(profiles: &mut Vec<ProfileMeta>, kind: ProfileType, id: &str) -> (r: bool)
    ensures
        profile_models(final(profiles)@) == without(profile_models(old(profiles)@), kind, id@),
        r == (profile_models(final(profiles)@).len() != profile_models(old(profiles)@).len()),
        r == (exists|j: int|
            0 <= j < old(profiles).len() && (#[trigger] profile_models(old(profiles)@)[j]).is(
                kind,
                id@,
            )),
{
    let ghost models = profile_models(profiles@);
    let mut kept: Vec<ProfileMeta> = Vec::new();
    let mut found = false;
    let mut i: usize = 0;
    assert(models.subrange(0, 0) =~= Seq::empty());
    assert(profile_models(kept@) =~= Seq::empty());
    while i < profiles.len()
        invariant
            i <= profiles.len(),
            profiles@ == old(profiles)@,
            models == profile_models(profiles@),
            profile_models(kept@) == without(models.subrange(0, i as int), kind, id@),
            kept.len() <= i,
            found == (kept.len() != i),
            found == (exists|j: int| 0 <= j < i && (#[trigger] models[j]).is(kind, id@)),
        decreases profiles.len() - i,
    {
        let ghost done = without(models.subrange(0, i as int), kind, id@);
        let ghost next = models.subrange(0, i + 1);
        assert(next.drop_last() =~= models.subrange(0, i as int));
        assert(next.last() == profiles[i as int]@);
        assert(models[i as int] == profiles[i as int]@);
        if profiles[i].is(kind, id) {
            found = true;
        } else {
            kept.push(profiles[i].copy());
            assert(profile_models(kept@) =~= done.push(profiles[i as int]@));
        }
        i += 1;
    }
    assert(models.subrange(0, profiles.len() as int) =~= models);
    *profiles = kept;
    found
}

impl ProxySelectionSet {
    /// A copy of the set.
    pub fn copy(&self) -> (r: ProxySelectionSet)
        ensures
            r@ == self@,
    {
        let mut selections: Vec<ProxySelectionRecord> = Vec::new();
        let mut i: usize = 0;
        while i < self.selections.len()
            invariant
                i <= self.selections.len(),
                selections.len() == i,
                forall|j: int| 0 <= j < i ==> (#[trigger] selections[j])@ == self.selections[j]@,
            decreases self.selections.len() - i,
        {
            selections.push(
                ProxySelectionRecord {
                    group: self.selections[i].group.clone(),
                    node: self.selections[i].node.clone(),
                },
            );
            i += 1;
        }
        assert(record_models(selections@) =~= record_models(self.selections@));
        ProxySelectionSet {
            subscription_id: copy_opt(&self.subscription_id),
            user_profile_id: copy_opt(&self.user_profile_id),
            selections,
        }
    }
}

/// A copy of the configuration as it stands.
pub fn get_app_config_snapshot(config: &AppConfig) -> (r: AppConfig)
    ensures
        r@ == config@,
{
    let mut profiles: Vec<ProfileMeta> = Vec::new();
    let mut i: usize = 0;
    while i < config.profiles.len()
        invariant
            i <= config.profiles.len(),
            profiles.len() == i,
            forall|j: int| 0 <= j < i ==> (#[trigger] profiles[j])@ == config.profiles[j]@,
        decreases config.profiles.len() - i,
    {
        profiles.push(config.profiles[i].copy());
        i += 1;
    }
    assert(profile_models(profiles@) =~= profile_models(config.profiles@));
    let mut sets: Vec<ProxySelectionSet> = Vec::new();
    let mut k: usize = 0;
    while k < config.proxy_selections.len()
        invariant
            k <= config.proxy_selections.len(),
            sets.len() == k,
            forall|j: int| 0 <= j < k ==> (#[trigger] sets[j])@ == config.proxy_selections[j]@,
        decreases config.proxy_selections.len() - k,
    {
        sets.push(config.proxy_selections[k].copy());
        k += 1;
    }
    assert(set_models(sets@) =~= set_models(config.proxy_selections@));
    AppConfig {
        profiles,
        active_subscription_id: copy_opt(&config.active_subscription_id),
        active_user_profile_id: copy_opt(&config.active_user_profile_id),
        panel_password_hash: copy_opt(&config.panel_password_hash),
        core_auto_start: config.core_auto_start,
        subscription_auto_update: copy_task(&config.subscription_auto_update),
        geoip_auto_update: copy_task(&config.geoip_auto_update),
        proxy_selections: sets,
    }
}

/// Gives each task that has no schedule the default one.
pub fn apply_app_config_defaults(config: &mut AppConfig)
    ensures
        final(config)@ == old(config)@.with_defaults(),
{
    if config.subscription_auto_update.is_none() {
        config.subscription_auto_update = Some(ScheduledTaskConfig::daily());
    }
    if config.geoip_auto_update.is_none() {
        config.geoip_auto_update = Some(ScheduledTaskConfig::daily());
    }
}

/// What reading the stored configuration gave when the process came up.
#[derive(Debug)]
pub enum ConfigRead {
    /// There is no stored configuration: this is a fresh installation.
    Missing,
    /// The file could not be read. The error's text is kept.
    Unreadable(String),
    /// The file's content is no configuration. The parser's message is kept.
    Unparseable(String),
    /// The stored configuration.
    Parsed(AppConfig),
}

/// The configuration with which the process comes up: that of a fresh
/// installation where none is stored, else the stored one, each with the
/// defaults applied. A stored configuration that cannot be read is no
/// configuration to come up with, and the process is to stop.
pub fn load_app_config(read: ConfigRead) -> (r: Result<AppConfig, String>)
    ensures
        match read {
            ConfigRead::Missing => r matches Ok(config) && config@
                == ConfigModel::empty().with_defaults(),
            ConfigRead::Parsed(stored) => r matches Ok(config) && config@
                == stored@.with_defaults(),
            ConfigRead::Unreadable(message) => r matches Err(m) && m@ == message@,
            ConfigRead::Unparseable(message) => r matches Err(m) && m@ == message@,
        },
{
    match read {
        ConfigRead::Missing => {
            let mut config = AppConfig::default();
            apply_app_config_defaults(&mut config);
            Ok(config)
        },
        ConfigRead::Parsed(stored) => {
            let mut config = stored;
            apply_app_config_defaults(&mut config);
            Ok(config)
        },
        ConfigRead::Unreadable(message) => Err(message),
        ConfigRead::Unparseable(message) => Err(message),
    }
}

/// Applying the defaults a second time changes nothing.
pub proof fn law_defaults_idempotent(config: ConfigModel)
    ensures
        config.with_defaults().with_defaults() == config.with_defaults(),
{
}

/// Applying the defaults touches nothing but the tasks that had no schedule.
pub proof fn law_defaults_keep_settings(config: ConfigModel)
    ensures
        config.with_defaults().profiles == config.profiles,
        config.with_defaults().proxy_selections == config.proxy_selections,
        config.with_defaults().active_subscription_id == config.active_subscription_id,
        config.with_defaults().active_user_profile_id == config.active_user_profile_id,
        config.with_defaults().panel_password_hash == config.panel_password_hash,
        config.with_defaults().core_auto_start == config.core_auto_start,
        config.subscription_auto_update is Some ==> config.with_defaults().subscription_auto_update
            == config.subscription_auto_update,
        config.geoip_auto_update is Some ==> config.with_defaults().geoip_auto_update
            == config.geoip_auto_update,
{
}

} // verus!
