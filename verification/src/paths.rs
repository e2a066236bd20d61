//! Where the files of the application lie under the data root.

use vstd::prelude::*;
use crate::app::DEFAULT_DATA_ROOT;
use crate::app::DEFAULT_HOST;
use crate::app::server_port;
use crate::text::chars_of;
use crate::text::decimal_digits;
use crate::text::decimal_text;

verus! {

/// A path under a directory: the directory, a slash unless the directory
/// ends with one, and what lies under it.
pub open spec fn under(base: Seq<char>, part: Seq<char>) -> Seq<char> {
    if base.len() > 0 && base.last() == '/' {
        base + part
    } else {
        base + seq!['/'] + part
    }
}

/// A path under a directory.
pub fn join(base: &str, part: &str) -> (r: String)
    ensures
        r@ == under(base@, part@),
{
    let chars = chars_of(base);
    let mut path = base.to_owned();
    if !(chars.len() > 0 && chars[chars.len() - 1] == '/') {
        path.append("/");
        proof {
            reveal_strlit("/");
            assert("/"@ =~= seq!['/']);
        }
    }
    path.append(part);
    path
}

/// The data root: the router's where the router's storage is there, else a
/// directory under the user's home, else the router's all the same.
pub open spec fn data_root_of(jffs_is_dir: bool, home: Option<Seq<char>>) -> Seq<char> {
    if jffs_is_dir {
        DEFAULT_DATA_ROOT@
    } else {
        match home {
            Some(h) => under(under(under(h, ".local"@), "share"@), "camofy"@),
            None => DEFAULT_DATA_ROOT@,
        }
    }
}

/// The data root, from whether the router's storage is there and from the
/// user's home directory, where the environment names one.
pub fn data_root(jffs_is_dir: bool, home: Option<&str>) -> (r: String)
    ensures
        r@ == data_root_of(
            jffs_is_dir,
            match home {
                Some(h) => Some(h@),
                None => None,
            },
        ),
{
    if jffs_is_dir {
        return DEFAULT_DATA_ROOT.to_owned();
    }
    match home {
        Some(h) => {
            let local = join(h, ".local");
            let share = join(local.as_str(), "share");
            join(share.as_str(), "camofy")
        },
        None => DEFAULT_DATA_ROOT.to_owned(),
    }
}

/// The address on which the panel listens, as a text: the host that the
/// environment names, or the default, a colon, and the port.
pub fn server_addr_from_env(host: Option<&str>, port: Option<&str>) -> (r: String)
    ensures
        r@ == (match host {
            Some(h) => h@,
            None => DEFAULT_HOST@,
        }) + seq![':'] + decimal_digits(
            crate::app::port_of(
                match port {
                    Some(p) => Some(p@),
                    None => None,
                },
            ) as nat,
        ),
{
    let mut addr = match host {
        Some(h) => h.to_owned(),
        None => DEFAULT_HOST.to_owned(),
    };
    addr.append(":");
    proof {
        reveal_strlit(":");
        assert(":"@ =~= seq![':']);
    }
    addr.append(decimal_text(server_port(port) as u64).as_str());
    addr
}

/// The directory of the engine's files.
pub fn core_dir(root: &str) -> (r: String)
    ensures
        r@ == under(root@, "core"@),
{
    join(root, "core")
}

/// The engine's binary.
pub fn core_binary_path(root: &str) -> (r: String)
    ensures
        r@ == under(under(root@, "core"@), "mihomo"@),
{
    join(core_dir(root).as_str(), "mihomo")
}

/// The record that lies beside the engine's binary.
pub fn core_meta_path(root: &str) -> (r: String)
    ensures
        r@ == under(under(root@, "core"@), "core.meta.json"@),
{
    join(core_dir(root).as_str(), "core.meta.json")
}

/// The engine's PID file.
pub fn core_pid_path(root: &str) -> (r: String)
    ensures
        r@ == under(under(root@, "core"@), "mihomo.pid"@),
{
    join(core_dir(root).as_str(), "mihomo.pid")
}

/// The engine's log.
pub fn mihomo_log_path(root: &str) -> (r: String)
    ensures
        r@ == under(under(root@, "log"@), "mihomo.log"@),
{
    join(join(root, "log").as_str(), "mihomo.log")
}

/// The application's log.
pub fn app_log_path(root: &str) -> (r: String)
    ensures
        r@ == under(under(root@, "log"@), "app.log"@),
{
    join(join(root, "log").as_str(), "app.log")
}

/// The GeoIP database.
pub fn geoip_target_path(root: &str) -> (r: String)
    ensures
        r@ == under(under(root@, "config"@), "geoip.metadb"@),
{
    join(join(root, "config").as_str(), "geoip.metadb")
}

/// Where the GeoIP database is downloaded to before it is moved in place.
pub fn geoip_tmp_path(root: &str) -> (r: String)
    ensures
        r@ == under(under(root@, "tmp"@), "geoip.metadb.tmp"@),
{
    join(join(root, "tmp").as_str(), "geoip.metadb.tmp")
}

/// Where the engine's binary is downloaded to before it is moved in place.
pub fn core_download_tmp_path(root: &str) -> (r: String)
    ensures
        r@ == under(under(root@, "tmp"@), "mihomo-download.tmp"@),
{
    join(join(root, "tmp").as_str(), "mihomo-download.tmp")
}

/// The application's configuration.
pub fn app_config_path(root: &str) -> (r: String)
    ensures
        r@ == under(under(root@, "config"@), "app.json"@),
{
    join(join(root, "config").as_str(), "app.json")
}

/// The composed configuration of the engine.
pub fn merged_config_path(root: &str) -> (r: String)
    ensures
        r@ == under(under(root@, "config"@), "merged.yaml"@),
{
    join(join(root, "config").as_str(), "merged.yaml")
}


/// The built-in defaults, written out for the user to read.
pub fn core_defaults_path(root: &str) -> (r: String)
    ensures
        r@ == under(under(root@, "config"@), "core-defaults.yaml"@),
{
    join(join(root, "config").as_str(), "core-defaults.yaml")
}

/// The directory of a subscription.
pub fn subscription_dir(root: &str, id: &str) -> (r: String)
    ensures
        r@ == under(under(under(root@, "config"@), "subscriptions"@), id@),
{
    join(join(join(root, "config").as_str(), "subscriptions").as_str(), id)
}

/// The file of a profile, from the profile's path relative to the
/// configuration directory.
pub fn profile_file_path(root: &str, relative: &str) -> (r: String)
    ensures
        r@ == under(under(root@, "config"@), relative@),
{
    join(join(root, "config").as_str(), relative)
}

/// The address from which the GeoIP database is downloaded.
pub const GEOIP_URL: &'static str =
    "https://mirror.camofy.app/MetaCubeX/meta-rules-dat/releases/download/latest/geoip.metadb";

/// The address that is asked for the latest release of the engine.
pub const RELEASE_API_URL: &'static str =
    "https://mirror.camofy.app/repos/MetaCubeX/mihomo/releases/latest";

/// The address that is probed to see whether the network is there.
pub const NETWORK_PROBE_URL: &'static str = "https://qq.com/";

} // verus!
