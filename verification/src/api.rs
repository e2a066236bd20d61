//! The outcome codes that the panel's interface reports.

use vstd::prelude::*;

verus! {

/// Why a request failed. Each variant has a stable tag for machines.
#[derive(Clone, Copy, PartialEq, Eq, Structural, Debug)]
pub enum ErrorCode {
    SettingsInvalidPassword,
    SettingsHashFailed,
    MihomoInvalidProxyName,
    UserProfileInvalidYaml,
    SubscriptionNotFound,
    UserProfileNotFound,
    MergedConfigNotFound,
    LogNotFound,
    MihomoGroupNotFound,
    Unauthorized,
    AuthPasswordNotSet,
    AuthInvalidPassword,
    AuthInvalidPasswordStore,
    ConfigLoadFailed,
    ConfigSaveFailed,
    ConfigMergeFailed,
    CoreNotInstalled,
    CoreAlreadyRunning,
    CoreNotRunning,
    CoreOperationInProgress,
    CoreStartFailed,
    CoreStopFailed,
    CoreDownloadFailed,
    CoreInstallFailed,
    CoreExtractFailed,
    CoreMetaSaveFailed,
    CoreUnsupportedArch,
    CoreResolveDownloadUrlFailed,
    CoreConfigMissing,
    MihomoSecretError,
    MihomoProxiesFailed,
    MihomoSelectFailed,
    MihomoDelayProxyFailed,
    SubscriptionFetchFailed,
    SubscriptionSaveFailed,
    SubscriptionUrlMissing,
}

impl ErrorCode {
    /// The tag under which the outcome is reported.
    pub fn code(self) -> (r: &'static str)
        ensures
            r@ == self.tag(),
    {
        match self {
            ErrorCode::SettingsInvalidPassword => "settings_invalid_password",
            ErrorCode::SettingsHashFailed => "settings_hash_failed",
            ErrorCode::MihomoInvalidProxyName => "mihomo_invalid_proxy_name",
            ErrorCode::UserProfileInvalidYaml => "user_profile_invalid_yaml",
            ErrorCode::SubscriptionNotFound => "subscription_not_found",
            ErrorCode::UserProfileNotFound => "user_profile_not_found",
            ErrorCode::MergedConfigNotFound => "merged_config_not_found",
            ErrorCode::LogNotFound => "log_not_found",
            ErrorCode::MihomoGroupNotFound => "mihomo_group_not_found",
            ErrorCode::Unauthorized => "unauthorized",
            ErrorCode::AuthPasswordNotSet => "auth_password_not_set",
            ErrorCode::AuthInvalidPassword => "auth_invalid_password",
            ErrorCode::AuthInvalidPasswordStore => "auth_invalid_password_store",
            ErrorCode::ConfigLoadFailed => "config_load_failed",
            ErrorCode::ConfigSaveFailed => "config_save_failed",
            ErrorCode::ConfigMergeFailed => "config_merge_failed",
            ErrorCode::CoreNotInstalled => "core_not_installed",
            ErrorCode::CoreAlreadyRunning => "core_already_running",
            ErrorCode::CoreNotRunning => "core_not_running",
            ErrorCode::CoreOperationInProgress => "core_operation_in_progress",
            ErrorCode::CoreStartFailed => "core_start_failed",
            ErrorCode::CoreStopFailed => "core_stop_failed",
            ErrorCode::CoreDownloadFailed => "core_download_failed",
            ErrorCode::CoreInstallFailed => "core_install_failed",
            ErrorCode::CoreExtractFailed => "core_extract_failed",
            ErrorCode::CoreMetaSaveFailed => "core_meta_save_failed",
            ErrorCode::CoreUnsupportedArch => "core_unsupported_arch",
            ErrorCode::CoreResolveDownloadUrlFailed => "core_resolve_download_url_failed",
            ErrorCode::CoreConfigMissing => "core_config_missing",
            ErrorCode::MihomoSecretError => "mihomo_secret_error",
            ErrorCode::MihomoProxiesFailed => "mihomo_proxies_failed",
            ErrorCode::MihomoSelectFailed => "mihomo_select_failed",
            ErrorCode::MihomoDelayProxyFailed => "mihomo_delay_proxy_failed",
            ErrorCode::SubscriptionFetchFailed => "subscription_fetch_failed",
            ErrorCode::SubscriptionSaveFailed => "subscription_save_failed",
            ErrorCode::SubscriptionUrlMissing => "subscription_url_missing",
        }
    }

    /// The tag under which the outcome is reported.
    pub open spec fn tag(self) -> Seq<char> {
        match self {
            ErrorCode::SettingsInvalidPassword => "settings_invalid_password"@,
            ErrorCode::SettingsHashFailed => "settings_hash_failed"@,
            ErrorCode::MihomoInvalidProxyName => "mihomo_invalid_proxy_name"@,
            ErrorCode::UserProfileInvalidYaml => "user_profile_invalid_yaml"@,
            ErrorCode::SubscriptionNotFound => "subscription_not_found"@,
            ErrorCode::UserProfileNotFound => "user_profile_not_found"@,
            ErrorCode::MergedConfigNotFound => "merged_config_not_found"@,
            ErrorCode::LogNotFound => "log_not_found"@,
            ErrorCode::MihomoGroupNotFound => "mihomo_group_not_found"@,
            ErrorCode::Unauthorized => "unauthorized"@,
            ErrorCode::AuthPasswordNotSet => "auth_password_not_set"@,
            ErrorCode::AuthInvalidPassword => "auth_invalid_password"@,
            ErrorCode::AuthInvalidPasswordStore => "auth_invalid_password_store"@,
            ErrorCode::ConfigLoadFailed => "config_load_failed"@,
            ErrorCode::ConfigSaveFailed => "config_save_failed"@,
            ErrorCode::ConfigMergeFailed => "config_merge_failed"@,
            ErrorCode::CoreNotInstalled => "core_not_installed"@,
            ErrorCode::CoreAlreadyRunning => "core_already_running"@,
            ErrorCode::CoreNotRunning => "core_not_running"@,
            ErrorCode::CoreOperationInProgress => "core_operation_in_progress"@,
            ErrorCode::CoreStartFailed => "core_start_failed"@,
            ErrorCode::CoreStopFailed => "core_stop_failed"@,
            ErrorCode::CoreDownloadFailed => "core_download_failed"@,
            ErrorCode::CoreInstallFailed => "core_install_failed"@,
            ErrorCode::CoreExtractFailed => "core_extract_failed"@,
            ErrorCode::CoreMetaSaveFailed => "core_meta_save_failed"@,
            ErrorCode::CoreUnsupportedArch => "core_unsupported_arch"@,
            ErrorCode::CoreResolveDownloadUrlFailed => "core_resolve_download_url_failed"@,
            ErrorCode::CoreConfigMissing => "core_config_missing"@,
            ErrorCode::MihomoSecretError => "mihomo_secret_error"@,
            ErrorCode::MihomoProxiesFailed => "mihomo_proxies_failed"@,
            ErrorCode::MihomoSelectFailed => "mihomo_select_failed"@,
            ErrorCode::MihomoDelayProxyFailed => "mihomo_delay_proxy_failed"@,
            ErrorCode::SubscriptionFetchFailed => "subscription_fetch_failed"@,
            ErrorCode::SubscriptionSaveFailed => "subscription_save_failed"@,
            ErrorCode::SubscriptionUrlMissing => "subscription_url_missing"@,
        }
    }
}

/// `uuid::Uuid::new_v4` and the `Display` of `uuid::Uuid`: a fresh random
/// identifier in its hyphenated form, which has 36 characters. Where the
/// system's source of random numbers fails, the call panics.
#[verifier::external_body]
pub(crate) fn new_uuid() -> (r: String)
    ensures
        r@.len() == 36,
{
    uuid::Uuid::new_v4().to_string()
}

} // verus!
