//! Process-wide settings: where the data lies, where the panel listens, and
//! how moments are written.

use vstd::prelude::*;
use crate::text::decimal_digits;
use crate::text::decimal_text;
use crate::text::parse_u32;
use crate::text::parse_u32_spec;

verus! {

/// The data root on a router.
pub const DEFAULT_DATA_ROOT: &'static str = "/jffs/camofy";

/// The address on which the panel listens unless told otherwise.
pub const DEFAULT_HOST: &'static str = "0.0.0.0";

/// The port on which the panel listens unless told otherwise.
pub const DEFAULT_PORT: u16 = 3000;

/// After how many seconds a request over the network is given up.
pub const HTTP_TIMEOUT_SECS: u64 = 300;

/// A session of the panel, held in memory.
#[derive(Debug)]
pub struct AuthSession {
    pub token: String,
    /// In seconds since the Unix epoch.
    pub expires_at: u64,
}

/// A moment as it is written in the configuration and in events: its seconds
/// since the Unix epoch, in decimal.
pub fn current_timestamp(unix_seconds: u64) -> (r: String)
    ensures
        r@ == decimal_digits(unix_seconds as nat),
{
    decimal_text(unix_seconds)
}

/// The port that a text names: a number that fits in 16 bits, else the
/// default port.
pub open spec fn port_of(text: Option<Seq<char>>) -> u16 {
    match text {
        Some(t) => match parse_u32_spec(t) {
            Some(n) if n <= u16::MAX => n as u16,
            _ => DEFAULT_PORT,
        },
        None => DEFAULT_PORT,
    }
}

/// The port on which the panel listens, given what the environment says.
pub fn server_port(text: Option<&str>) -> (r: u16)
    ensures
        r == port_of(
            match text {
                Some(t) => Some(t@),
                None => None,
            },
        ),
{
    match text {
        Some(t) => match parse_u32(&crate::text::chars_of(t)) {
            Some(n) => {
                if n <= 65535 {
                    n as u16
                } else {
                    DEFAULT_PORT
                }
            },
            None => DEFAULT_PORT,
        },
        None => DEFAULT_PORT,
    }
}

/// The directories that are made when the process comes up, in the order
/// in which they are made: the data root, then what lies directly under it.
pub fn init_data_dirs(root: &str) -> (r: Vec<String>)
    ensures
        r@.len() == 5,
        r[0]@ == root@,
        r[1]@ == crate::paths::under(root@, "config"@),
        r[2]@ == crate::paths::under(root@, "core"@),
        r[3]@ == crate::paths::under(root@, "log"@),
        r[4]@ == crate::paths::under(root@, "tmp"@),
{
    let mut out: Vec<String> = Vec::new();
    out.push(root.to_owned());
    out.push(crate::paths::join(root, "config"));
    out.push(crate::paths::join(root, "core"));
    out.push(crate::paths::join(root, "log"));
    out.push(crate::paths::join(root, "tmp"));
    out
}

} // verus!
