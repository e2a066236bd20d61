//! The engine's binary: which release fits the machine, how an archive is
//! unpacked, and what the PID file says about the engine.

use vstd::prelude::*;
use vstd::slice::slice_to_vec;
use crate::api::new_uuid;
use crate::config::AppConfig;
use crate::config::ConfigModel;
use crate::config::copy_opt;
use crate::config::opt_text;
use crate::text::after_last;
use crate::text::chars_after_last;
use crate::text::chars_contain;
use crate::text::chars_end_with;
use crate::text::chars_of;
use crate::text::chars_start_with;
use crate::text::contains_text;
use crate::text::has_prefix;
use crate::text::has_suffix;
use crate::text::is_blank;
use crate::text::lowercased;
use crate::text::parse_u32;
use crate::text::parse_u32_spec;
use crate::text::string_of;
use crate::text::strip_leading;
use crate::text::strip_leading_chars;
use crate::text::to_lowercase;
use crate::text::trim_chars;
use crate::text::trimmed;

verus! {

/// What is recorded beside the engine's binary.
#[derive(Debug)]
pub struct CoreMeta {
    pub version: Option<String>,
    pub arch: Option<String>,
    pub last_download_time: Option<String>,
    /// The secret that authenticates requests to the engine.
    pub controller_secret: Option<String>,
}

/// What the panel shows of the engine's binary.
#[derive(Debug)]
pub struct CoreInfo {
    pub version: Option<String>,
    pub arch: Option<String>,
    pub last_download_time: Option<String>,
    pub binary_exists: bool,
    pub recommended_arch: String,
}

/// Whether the engine runs, and under which process id.
#[derive(Clone, Copy, PartialEq, Eq, Structural, Debug)]
pub struct CoreStatusDto {
    pub running: bool,
    pub pid: Option<u32>,
}

/// What the panel sends to download the engine.
#[derive(Debug)]
pub struct CoreDownloadRequest {
    pub url: Option<String>,
}

impl Default for CoreMeta {
    fn default() -> (r: CoreMeta)
        ensures
            r.version is None,
            r.arch is None,
            r.last_download_time is None,
            r.controller_secret is None,
    {
        CoreMeta { version: None, arch: None, last_download_time: None, controller_secret: None }
    }
}

/// The machine's architecture: what `uname -m` printed, trimmed, where it
/// printed something, else the architecture that the program was built for.
pub open spec fn system_arch(probe: Option<Seq<char>>, built_for: Seq<char>) -> Seq<char> {
    match probe {
        Some(text) if !is_blank(text) => trimmed(text),
        _ => built_for,
    }
}

/// The machine's architecture, from the output of the system probe and the
/// architecture that the program was built for.
pub fn detect_system_arch(probe: Option<&str>, built_for: &str) -> (r: String)
    ensures
        r@ == system_arch(
            match probe {
                Some(t) => Some(t@),
                None => None,
            },
            built_for@,
        ),
{
    match probe {
        Some(text) => {
            let inner = trim_chars(&chars_of(text));
            if inner.len() > 0 {
                string_of(&inner)
            } else {
                built_for.to_owned()
            }
        },
        None => built_for.to_owned(),
    }
}

/// The tag of the release asset for an architecture that is written in lower
/// case. The first rule that fits decides.
pub open spec fn arch_tag(lowered: Seq<char>) -> Option<Seq<char>> {
    if lowered == "x86_64"@ || lowered == "amd64"@ {
        Some("linux-amd64"@)
    } else if lowered == "aarch64"@ || lowered == "arm64"@ {
        Some("linux-arm64"@)
    } else if has_prefix(lowered, "armv7"@) {
        Some("linux-armv7"@)
    } else if has_prefix(lowered, "armv8"@) {
        Some("linux-armv8"@)
    } else if has_prefix(lowered, "mipsel"@) || has_prefix(lowered, "mipsle"@) {
        Some("linux-mipsle"@)
    } else if has_prefix(lowered, "mips"@) {
        Some("linux-mips"@)
    } else {
        None
    }
}

/// The tag of the release asset for an architecture that is written in lower
/// case.
pub fn arch_tag_of(lowered: &str) -> (r: Option<&'static str>)
    ensures
        match arch_tag(lowered@) {
            Some(tag) => r matches Some(t) && t@ == tag,
            None => r is None,
        },
{
    let chars = chars_of(lowered);
    if *lowered == *"x86_64" || *lowered == *"amd64" {
        Some("linux-amd64")
    } else if *lowered == *"aarch64" || *lowered == *"arm64" {
        Some("linux-arm64")
    } else if chars_start_with(&chars, &chars_of("armv7")) {
        Some("linux-armv7")
    } else if chars_start_with(&chars, &chars_of("armv8")) {
        Some("linux-armv8")
    } else if chars_start_with(&chars, &chars_of("mipsel")) || chars_start_with(
        &chars,
        &chars_of("mipsle"),
    ) {
        Some("linux-mipsle")
    } else if chars_start_with(&chars, &chars_of("mips")) {
        Some("linux-mips")
    } else {
        None
    }
}

/// The tag of the release asset for the machine's architecture, in whatever
/// case it is written. Nothing for an architecture without a release.
pub fn map_arch_to_mihomo_arch(arch: &str) -> (r: Option<&'static str>)
    ensures
        match arch_tag(lowercased(arch@)) {
            Some(tag) => r matches Some(t) && t@ == tag,
            None => r is None,
        },
{
    let lowered = to_lowercase(arch);
    arch_tag_of(lowered.as_str())
}

/// The secret that authenticates requests to the engine: the recorded one, or
/// a fresh one that is recorded now. The flag says whether the record
/// changed and has to be saved.
pub fn ensure_controller_secret(meta: &mut CoreMeta) -> (r: (String, bool))
    ensures
        match opt_text(old(meta).controller_secret) {
            Some(secret) => r.0@ == secret && !r.1 && opt_text(final(meta).controller_secret)
                == Some(secret),
            None => r.1 && opt_text(final(meta).controller_secret) == Some(r.0@) && r.0@.len()
                == 36,
        },
        opt_text(final(meta).version) == opt_text(old(meta).version),
        opt_text(final(meta).arch) == opt_text(old(meta).arch),
        opt_text(final(meta).last_download_time) == opt_text(old(meta).last_download_time),
{
    match &meta.controller_secret {
        Some(secret) => (secret.clone(), false),
        None => {
            let secret = new_uuid();
            meta.controller_secret = Some(secret.clone());
            (secret, true)
        },
    }
}

/// What reading the PID file gave.
#[derive(Debug)]
pub enum PidFile {
    /// There is no PID file.
    Missing,
    /// The PID file could not be read.
    Unreadable,
    /// The PID file's content.
    Content(String),
}

/// The process id that a PID file names: the number that its content writes,
/// white space aside.
pub open spec fn pid_of(file: PidFile) -> Option<u32> {
    match file {
        PidFile::Content(text) => parse_u32_spec(trimmed(text@)),
        _ => None,
    }
}

/// The process id that a PID file names.
pub fn read_core_pid(file: &PidFile) -> (r: Option<u32>)
    ensures
        r == pid_of(*file),
{
    match file {
        PidFile::Content(text) => parse_u32(&trim_chars(&chars_of(text.as_str()))),
        _ => None,
    }
}

/// What a look at the engine's process found.
#[derive(Clone, Copy, PartialEq, Eq, Structural, Debug)]
pub struct CoreProbe {
    pub status: CoreStatusDto,
    /// The PID file is stale or broken and is to be removed.
    pub remove_pid_file: bool,
}

/// What the PID file and the process table say of the engine. The engine
/// runs where the file names a process that lives. A file that names a dead
/// process, or that cannot be read as a number, is to be removed; a missing
/// file leaves nothing to remove.
pub open spec fn probe_of(file: PidFile, alive: bool) -> CoreProbe {
    match pid_of(file) {
        Some(pid) => if alive {
            CoreProbe { status: CoreStatusDto { running: true, pid: Some(pid) }, remove_pid_file: false }
        } else {
            CoreProbe { status: CoreStatusDto { running: false, pid: None }, remove_pid_file: true }
        },
        None => CoreProbe {
            status: CoreStatusDto { running: false, pid: None },
            remove_pid_file: !(file is Missing),
        },
    }
}

/// Whether the engine runs. `alive` says whether the process that the PID
/// file names lives; it is read only where the file names one.
pub fn core_running_status(file: &PidFile, alive: bool) -> (r: CoreProbe)
    ensures
        r == probe_of(*file, alive),
{
    match read_core_pid(file) {
        Some(pid) => {
            if alive {
                CoreProbe {
                    status: CoreStatusDto { running: true, pid: Some(pid) },
                    remove_pid_file: false,
                }
            } else {
                CoreProbe {
                    status: CoreStatusDto { running: false, pid: None },
                    remove_pid_file: true,
                }
            }
        },
        None => {
            let missing = match file {
                PidFile::Missing => true,
                _ => false,
            };
            CoreProbe {
                status: CoreStatusDto { running: false, pid: None },
                remove_pid_file: !missing,
            }
        },
    }
}

/// What the panel is told of the engine's process.
pub fn get_core_status(file: &PidFile, alive: bool) -> (r: CoreStatusDto)
    ensures
        r == probe_of(*file, alive).status,
{
    core_running_status(file, alive).status
}

/// The engine counts as possibly running exactly where the PID file holds a
/// number, and a probe that finds no living process leaves no PID file
/// behind: it reports the engine as stopped and has the file removed.
pub proof fn law_pid_file_and_status(file: PidFile, alive: bool)
    ensures
        probe_of(file, alive).status.running ==> pid_of(file) is Some && alive,
        pid_of(file) is Some ==> probe_of(file, true).status.running,
        !alive && !(file is Missing) ==> probe_of(file, alive).remove_pid_file && !probe_of(
            file,
            alive,
        ).status.running,
        probe_of(file, alive).status.running ==> !probe_of(file, alive).remove_pid_file,
        probe_of(file, alive).status.pid is Some <==> probe_of(file, alive).status.running,
{
}

/// Records the user's intent for the engine: running or not.
pub fn update_core_auto_start_flag(config: &mut AppConfig, auto_start: bool)
    ensures
        final(config)@ == (ConfigModel { core_auto_start: auto_start, ..old(config)@ }),
{
    config.core_auto_start = auto_start;
}

/// Where a release's asset is downloaded from, and under which names.
#[derive(Debug)]
pub struct ReleaseAsset {
    pub url: String,
    pub version: String,
    pub file_name: String,
}

/// The version of a release: its tag without the `v`s at its start.
pub open spec fn release_version(tag: Seq<char>) -> Seq<char> {
    strip_leading(tag, 'v')
}

/// The file name of a release's asset for an architecture.
pub open spec fn release_file_name(tag: Seq<char>, arch: Seq<char>) -> Seq<char> {
    "mihomo-"@ + arch + "-v"@ + release_version(tag) + ".gz"@
}

/// The address of a release's asset for an architecture, on the mirror.
pub open spec fn release_url(tag: Seq<char>, arch: Seq<char>) -> Seq<char> {
    "https://mirror.camofy.app/MetaCubeX/mihomo/releases/download/"@ + tag + "/"@
        + release_file_name(tag, arch)
}

/// Where the asset of the release with the given tag is downloaded from.
pub fn resolve_core_download_url(tag: &str, arch: &str) -> (r: ReleaseAsset)
    ensures
        r.url@ == release_url(tag@, arch@),
        r.version@ == release_version(tag@),
        r.file_name@ == release_file_name(tag@, arch@),
{
    let version = string_of(&strip_leading_chars(&chars_of(tag), 'v'));
    let mut file_name = "mihomo-".to_owned();
    file_name.append(arch);
    file_name.append("-v");
    file_name.append(version.as_str());
    file_name.append(".gz");
    let mut url = "https://mirror.camofy.app/MetaCubeX/mihomo/releases/download/".to_owned();
    url.append(tag);
    url.append("/");
    url.append(file_name.as_str());
    assert(file_name@ =~= release_file_name(tag@, arch@));
    assert(url@ =~= release_url(tag@, arch@));
    ReleaseAsset { url, version, file_name }
}

/// The name under which a download from an address of the user's choice is
/// unpacked: what follows the last slash, or `mihomo` where nothing follows.
pub open spec fn asset_name_of(url: Seq<char>) -> Seq<char> {
    if after_last(url, '/').len() > 0 {
        after_last(url, '/')
    } else {
        "mihomo"@
    }
}

/// The address that the user chose for the download, trimmed, with the name
/// under which the download is unpacked. Nothing where the request names no
/// address, or a blank one: the latest release is then looked up.
pub fn custom_download(body: &CoreDownloadRequest) -> (r: Option<(String, String)>)
    ensures
        match opt_text(body.url) {
            Some(text) if !is_blank(text) => r matches Some(pair) && pair.0@ == trimmed(text)
                && pair.1@ == asset_name_of(trimmed(text)),
            _ => r is None,
        },
{
    match &body.url {
        None => None,
        Some(text) => {
            let inner = trim_chars(&chars_of(text.as_str()));
            if inner.len() == 0 {
                return None;
            }
            let last = chars_after_last(&inner, '/');
            let name = if last.len() > 0 {
                string_of(&last)
            } else {
                "mihomo".to_owned()
            };
            Some((string_of(&inner), name))
        },
    }
}

/// How a downloaded file is packed.
#[derive(Clone, Copy, PartialEq, Eq, Structural, Debug)]
pub enum ArchiveKind {
    /// A gzipped tar archive.
    TarGz,
    /// A gzipped file.
    Gz,
    /// The binary itself.
    Raw,
}

/// How a file is packed, by its name in lower case.
pub open spec fn kind_of_name(lowered: Seq<char>) -> ArchiveKind {
    if has_suffix(lowered, ".tar.gz"@) || has_suffix(lowered, ".tgz"@) {
        ArchiveKind::TarGz
    } else if has_suffix(lowered, ".gz"@) {
        ArchiveKind::Gz
    } else {
        ArchiveKind::Raw
    }
}

/// How a file is packed, by its name in lower case.
pub fn archive_kind(lowered: &str) -> (r: ArchiveKind)
    ensures
        r == kind_of_name(lowered@),
{
    let chars = chars_of(lowered);
    if chars_end_with(&chars, &chars_of(".tar.gz")) || chars_end_with(&chars, &chars_of(".tgz")) {
        ArchiveKind::TarGz
    } else if chars_end_with(&chars, &chars_of(".gz")) {
        ArchiveKind::Gz
    } else {
        ArchiveKind::Raw
    }
}

/// One entry of an archive.
#[derive(Debug)]
pub struct ArchiveEntry {
    /// The last component of the entry's path, or nothing where the path has
    /// none that is text.
    pub name: String,
    /// Whether the entry is a regular file.
    pub is_file: bool,
    pub content: Vec<u8>,
}

/// The entries of an archive that could be read, in their order, and the
/// message of the error that ended the reading, where one did.
#[derive(Debug)]
pub struct ArchiveListing {
    pub entries: Vec<ArchiveEntry>,
    pub error: Option<String>,
}

/// The model of an archive's entry.
pub struct EntryModel {
    pub name: Seq<char>,
    pub is_file: bool,
    pub content: Seq<u8>,
}

/// The model of an archive's listing.
pub struct ListingModel {
    pub entries: Seq<EntryModel>,
    pub failed: bool,
}

impl View for ArchiveEntry {
    type V = EntryModel;

    open spec fn view(&self) -> EntryModel {
        EntryModel { name: self.name@, is_file: self.is_file, content: self.content@ }
    }
}

impl View for ArchiveListing {
    type V = ListingModel;

    open spec fn view(&self) -> ListingModel {
        ListingModel {
            entries: Seq::new(self.entries.len() as nat, |i: int| self.entries[i]@),
            failed: self.error is Some,
        }
    }
}

/// What `flate2` unpacks from gzipped bytes, where it unpacks them.
pub uninterp spec fn gunzipped(data: Seq<u8>) -> Option<Seq<u8>>;

/// What `tar` lists of a gzipped tar archive: its entries up to the first
/// that cannot be read.
pub uninterp spec fn archive_listing(data: Seq<u8>) -> ListingModel;

/// `flate2::read::GzDecoder`, read to its end: the bytes that the gzipped
/// data unpack to. An error holds the decoder's message.
#[verifier::external_body]
fn gunzip(data: &[u8]) -> (r: Result<Vec<u8>, String>)
    ensures
        r matches Ok(bytes) ==> gunzipped(data@) == Some(bytes@),
        r is Err ==> gunzipped(data@) is None,
{
    let mut out = Vec::new();
    match std::io::Read::read_to_end(&mut flate2::read::GzDecoder::new(data), &mut out) {
        Ok(_) => Ok(out),
        Err(e) => Err(e.to_string()),
    }
}

/// `tar::Archive::entries` over `flate2::read::GzDecoder`: each entry of the
/// archive with the last component of its path, whether it is a regular
/// file, and its content, up to the first error.
#[verifier::external_body]
fn read_archive(data: &[u8]) -> (r: ArchiveListing)
    ensures
        r@ == archive_listing(data@),
{
    let mut entries = Vec::new();
    let mut archive = tar::Archive::new(flate2::read::GzDecoder::new(data));
    let outcome = (|| -> std::io::Result<()> {
        for entry in archive.entries()? {
            let mut entry = entry?;
            let name = entry.path()?.file_name().and_then(|s| s.to_str()).unwrap_or("").to_string();
            let is_file = entry.header().entry_type().is_file();
            let mut content = Vec::new();
            std::io::Read::read_to_end(&mut entry, &mut content)?;
            entries.push(ArchiveEntry { name, is_file, content });
        }
        Ok(())
    })();
    ArchiveListing { entries, error: outcome.err().map(|e| e.to_string()) }
}

/// Why the engine's binary could not be taken out of a download.
#[derive(Debug)]
pub enum ExtractError {
    /// The archive could not be read to its end, and no entry before the
    /// error is the engine. The reader's message is kept.
    ArchiveUnreadable(String),
    /// The archive holds no file whose name speaks of the engine.
    NoCoreBinary,
    /// The gzipped file could not be unpacked. The decoder's message is kept.
    GzipFailed(String),
}

/// Whether an entry is taken for the engine: a regular file whose name, in
/// lower case, holds the engine's name.
pub open spec fn is_core_entry(entry: EntryModel) -> bool {
    entry.is_file && contains_text(lowercased(entry.name), "mihomo"@)
}

/// Whether `i` is the position of the first entry that is taken for the
/// engine.
pub open spec fn is_core_at(entries: Seq<EntryModel>, i: int) -> bool {
    &&& 0 <= i < entries.len()
    &&& is_core_entry(entries[i])
    &&& forall|j: int| 0 <= j < i ==> !is_core_entry(#[trigger] entries[j])
}

/// The position of the first entry that is taken for the engine.
pub open spec fn core_entry(entries: Seq<EntryModel>) -> Option<int> {
    if exists|i: int| is_core_at(entries, i) {
        Some(choose|i: int| is_core_at(entries, i))
    } else {
        None
    }
}

/// The position of the first regular file whose name speaks of the engine.
pub fn pick_core_entry(listing: &ArchiveListing) -> (r: Option<usize>)
    ensures
        match r {
            Some(i) => core_entry(listing@.entries) == Some(i as int) && i < listing.entries.len(),
            None => core_entry(listing@.entries) is None,
        },
{
    let ghost models = listing@.entries;
    let needle = chars_of("mihomo");
    let mut i: usize = 0;
    while i < listing.entries.len()
        invariant
            i <= listing.entries.len(),
            models == listing@.entries,
            needle@ == "mihomo"@,
            forall|j: int| 0 <= j < i ==> !is_core_entry(#[trigger] models[j]),
        decreases listing.entries.len() - i,
    {
        let entry = &listing.entries[i];
        assert(models[i as int] == entry@);
        if entry.is_file {
            let lowered = to_lowercase(entry.name.as_str());
            if chars_contain(&chars_of(lowered.as_str()), &needle) {
                assert(is_core_at(models, i as int));
                let ghost k = choose|k: int| is_core_at(models, k);
                assert(k == i) by {
                    if k < i {
                        assert(!is_core_entry(models[k]));
                    }
                    if i < k {
                        assert(!is_core_entry(models[i as int]));
                    }
                }
                return Some(i);
            }
        }
        i += 1;
    }
    assert forall|k: int| !is_core_at(models, k) by {
        if is_core_at(models, k) {
            assert(!is_core_entry(models[k]));
        }
    }
    None
}

/// The engine's binary in a download, by the download's name: in lower case,
/// a name that ends in `.tar.gz` or `.tgz` is an archive, from which the
/// first regular file that speaks of the engine is taken; a name that ends in
/// `.gz` is a gzipped file; any other download is the binary itself.
pub open spec fn extracted(data: Seq<u8>, file_name: Seq<char>) -> Option<Seq<u8>> {
    match kind_of_name(lowercased(file_name)) {
        ArchiveKind::TarGz => match core_entry(archive_listing(data).entries) {
            Some(i) => Some(archive_listing(data).entries[i].content),
            None => None,
        },
        ArchiveKind::Gz => gunzipped(data),
        ArchiveKind::Raw => Some(data),
    }
}

/// Takes the engine's binary out of a download.
pub fn extract_core_binary(data: &[u8], file_name: &str) -> (r: Result<Vec<u8>, ExtractError>)
    ensures
        match extracted(data@, file_name@) {
            Some(bytes) => r matches Ok(b) && b@ == bytes,
            None => r is Err,
        },
        r matches Err(ExtractError::NoCoreBinary) ==> kind_of_name(lowercased(file_name@))
            == ArchiveKind::TarGz && !archive_listing(data@).failed,
        r matches Err(ExtractError::ArchiveUnreadable(_)) ==> kind_of_name(lowercased(file_name@))
            == ArchiveKind::TarGz && archive_listing(data@).failed,
        r matches Err(ExtractError::GzipFailed(_)) ==> kind_of_name(lowercased(file_name@))
            == ArchiveKind::Gz,
{
    let lowered = to_lowercase(file_name);
    match archive_kind(lowered.as_str()) {
        ArchiveKind::TarGz => {
            let listing = read_archive(data);
            match pick_core_entry(&listing) {
                Some(i) => {
                    assert(listing@.entries[i as int] == listing.entries[i as int]@);
                    Ok(listing.entries[i].content.clone())
                },
                None => match listing.error {
                    Some(message) => Err(ExtractError::ArchiveUnreadable(message)),
                    None => Err(ExtractError::NoCoreBinary),
                },
            }
        },
        ArchiveKind::Gz => match gunzip(data) {
            Ok(bytes) => Ok(bytes),
            Err(message) => Err(ExtractError::GzipFailed(message)),
        },
        ArchiveKind::Raw => Ok(slice_to_vec(data)),
    }
}

/// What the panel shows of the engine's binary: what is recorded of it,
/// whether it is there, and the machine's architecture.
pub fn get_core_info(meta: &CoreMeta, binary_exists: bool, recommended_arch: String) -> (r: CoreInfo)
    ensures
        opt_text(r.version) == opt_text(meta.version),
        opt_text(r.arch) == opt_text(meta.arch),
        opt_text(r.last_download_time) == opt_text(meta.last_download_time),
        r.binary_exists == binary_exists,
        r.recommended_arch@ == recommended_arch@,
{
    CoreInfo {
        version: copy_opt(&meta.version),
        arch: copy_opt(&meta.arch),
        last_download_time: copy_opt(&meta.last_download_time),
        binary_exists,
        recommended_arch,
    }
}

/// The record of the engine's binary after a download: the release's tag for
/// the architecture, the version where the release was looked up, and the
/// time. The controller's secret stays.
pub fn record_download(meta: &mut CoreMeta, arch: &str, version: Option<String>, now: &str)
    ensures
        opt_text(final(meta).arch) == Some(arch@),
        opt_text(final(meta).version) == opt_text(version),
        opt_text(final(meta).last_download_time) == Some(now@),
        opt_text(final(meta).controller_secret) == opt_text(old(meta).controller_secret),
{
    meta.arch = Some(arch.to_owned());
    meta.version = version;
    meta.last_download_time = Some(now.to_owned());
}

/// Where the system shows a process: the directory whose presence says that
/// the process lives.
pub fn process_path(pid: u32) -> (r: String)
    ensures
        r@ == "/proc/"@ + crate::text::decimal_digits(pid as nat),
{
    let mut path = "/proc/".to_owned();
    path.append(crate::text::decimal_text(pid as u64).as_str());
    path
}

/// What is written to the PID file: the process id in decimal.
pub fn pid_file_content(pid: u32) -> (r: String)
    ensures
        r@ == crate::text::decimal_digits(pid as nat),
{
    crate::text::decimal_text(pid as u64)
}

/// A command of the system: the program and its arguments.
#[derive(Debug)]
pub struct SystemCommand {
    pub program: &'static str,
    pub args: Vec<&'static str>,
}

/// The texts of a command's arguments.
pub open spec fn arg_texts(args: Seq<&'static str>) -> Seq<Seq<char>> {
    Seq::new(args.len(), |i: int| args[i]@)
}

/// The command that loads the kernel's TUN module.
pub fn ensure_tun_module_loaded() -> (r: SystemCommand)
    ensures
        r.program@ == "modprobe"@,
        arg_texts(r.args@) == seq!["tun"@],
{
    let mut args: Vec<&'static str> = Vec::new();
    args.push("tun");
    assert(arg_texts(args@) =~= seq!["tun"@]);
    SystemCommand { program: "modprobe", args }
}

/// The arguments of the rule that sends DNS requests to the engine's DNS
/// listener, to be appended or, with `-D`, deleted.
pub open spec fn dns_rule(action: Seq<char>) -> Seq<Seq<char>> {
    seq![
        "-t"@,
        "nat"@,
        action,
        "PREROUTING"@,
        "-p"@,
        "udp"@,
        "--dport"@,
        "53"@,
        "-j"@,
        "REDIRECT"@,
        "--to-ports"@,
        "1053"@,
    ]
}

/// The command of a DNS rule.
fn dns_rule_command(action: &'static str) -> (r: SystemCommand)
    ensures
        r.program@ == "iptables"@,
        arg_texts(r.args@) == dns_rule(action@),
{
    let mut args: Vec<&'static str> = Vec::new();
    args.push("-t");
    args.push("nat");
    args.push(action);
    args.push("PREROUTING");
    args.push("-p");
    args.push("udp");
    args.push("--dport");
    args.push("53");
    args.push("-j");
    args.push("REDIRECT");
    args.push("--to-ports");
    args.push("1053");
    assert(arg_texts(args@) =~= dns_rule(action@));
    SystemCommand { program: "iptables", args }
}

/// The command that redirects DNS requests to the engine.
pub fn apply_dns_redirect_rule() -> (r: SystemCommand)
    ensures
        r.program@ == "iptables"@,
        arg_texts(r.args@) == dns_rule("-A"@),
{
    dns_rule_command("-A")
}

/// The command that takes the redirection of DNS requests back.
pub fn remove_dns_redirect_rule() -> (r: SystemCommand)
    ensures
        r.program@ == "iptables"@,
        arg_texts(r.args@) == dns_rule("-D"@),
{
    dns_rule_command("-D")
}

/// The arguments with which the engine is started: its directory and its
/// configuration.
pub fn core_start_args(config_dir: &str, config_file: &str) -> (r: Vec<String>)
    ensures
        r@.len() == 4,
        r[0]@ == "-d"@,
        r[1]@ == config_dir@,
        r[2]@ == "-f"@,
        r[3]@ == config_file@,
{
    let mut args: Vec<String> = Vec::new();
    args.push("-d".to_owned());
    args.push(config_dir.to_owned());
    args.push("-f".to_owned());
    args.push(config_file.to_owned());
    args
}

} // verus!
