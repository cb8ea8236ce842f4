//! Daemon configuration: defaults, the configuration file, and reloading it.

use crate::retention::{
    default_auto_cleanup_keep, CleanupRetention, RetentionJson, RetentionView,
    DEFAULT_AUTO_CLEANUP_KEEP_COUNT,
};
use crate::text::{decimal, push_decimal, str_eq};
use vstd::prelude::*;

verus! {

/// Where the storage is mounted, unless the command line says otherwise.
pub const DEFAULT_MOUNT_PATH: &'static str = "/mnt/btrfs-workspace";

/// Where the daemon listens, unless the command line says otherwise.
pub const DEFAULT_SOCKET_PATH: &'static str = "/run/ws-ckpt/ws-ckpt.sock";

/// Name of the directory of snapshots in the storage.
pub const SNAPSHOTS_DIR: &'static str = "snapshots";

/// Name of a workspace's index file.
pub const INDEX_FILE: &'static str = "index.json";

/// Path of the image file.
pub const BTRFS_IMG_PATH: &'static str = "/var/lib/ws-ckpt/btrfs-data.img";

/// Directory of the image file.
pub const BTRFS_IMG_DIR: &'static str = "/var/lib/ws-ckpt";

/// Where the image lay in earlier installations.
pub const LEGACY_BTRFS_IMG_PATH: &'static str = "/data/ws-ckpt/btrfs-data.img";

/// Path of the configuration file.
pub const CONFIG_FILE_PATH: &'static str = "/etc/ws-ckpt/config.toml";

/// Image size in GB where none is configured.
pub const DEFAULT_IMG_SIZE_GB: u64 = 30;

/// Directory of the daemon's own records.
pub const DEFAULT_STATE_DIR: &'static str = "/var/lib/ws-ckpt";

/// Name of the manifest.
pub const STATE_FILE: &'static str = "state.json";

/// Name of the directory of index files.
pub const INDEXES_DIR: &'static str = "indexes";

/// Name of the file that is there while the daemon runs.
pub const LOCKFILE_NAME: &'static str = "daemon.lock";

/// Name of a workspace's policy file.
pub const POLICY_FILE: &'static str = "policy.toml";

/// Whether cleanup is on where that is not configured.
pub const DEFAULT_AUTO_CLEANUP: bool = false;

/// Default interval between auto-cleanup runs: 24 hours.
pub const DEFAULT_AUTO_CLEANUP_INTERVAL_SECS: u64 = 86_400;

/// Seconds between health checks where none are configured.
pub const DEFAULT_HEALTH_CHECK_INTERVAL_SECS: u64 = 300;

/// Versioned schema tag for [`GlobalConfigJson`].
pub const GLOBAL_CONFIG_JSON_SCHEMA: &'static str = "ws-ckpt-config/v1";

/// Versioned schema tag for the configuration overview.
pub const OVERVIEW_JSON_SCHEMA: &'static str = "ws-ckpt-overview/v1";

/// A percentage from 0 to 100, held as the bit pattern of an IEEE 754 double.
#[derive(Clone, Copy, Debug)]
pub struct Percent {
    pub bits: u64,
}

/// The bit pattern of 40.0, the default share of the host partition.
pub const DEFAULT_IMG_MAX_PERCENT_BITS: u64 = 0x4044_0000_0000_0000;

/// The bit pattern of 1.0.
pub const ONE_PERCENT_BITS: u64 = 0x3ff0_0000_0000_0000;

/// The bit pattern of 100.0.
pub const HUNDRED_PERCENT_BITS: u64 = 0x4059_0000_0000_0000;

/// The bit pattern of negative zero: the sign bit alone.
pub const SIGN_BIT: u64 = 0x8000_0000_0000_0000;

/// The bit pattern of positive infinity; larger magnitudes are not numbers.
pub const INFINITY_BITS: u64 = 0x7ff0_0000_0000_0000;

impl Percent {
    /// The pattern without its sign bit.
    pub open spec fn magnitude(self) -> u64 {
        self.bits % SIGN_BIT
    }

    /// Whether two patterns are the same number: neither is a NaN, and the patterns are the same
    /// or both are zeros.
    pub open spec fn same_number(self, other: Percent) -> bool {
        &&& self.magnitude() <= INFINITY_BITS
        &&& other.magnitude() <= INFINITY_BITS
        &&& self.bits == other.bits || (self.magnitude() == 0 && other.magnitude() == 0)
    }

    /// Whether the pattern is a finite number from 0 to 100. Patterns without sign grow with
    /// the numbers, and negative zero is a zero.
    pub open spec fn in_range(self) -> bool {
        self.bits <= HUNDRED_PERCENT_BITS || self.bits == SIGN_BIT
    }
}

impl PartialEq for Percent {
    fn eq(&self, other: &Self) -> (r: bool) {
        let a: u64 = self.bits % SIGN_BIT;
        let b: u64 = other.bits % SIGN_BIT;
        a <= INFINITY_BITS && b <= INFINITY_BITS && (self.bits == other.bits || (a == 0 && b == 0))
    }
}

impl vstd::std_specs::cmp::PartialEqSpecImpl for Percent {
    open spec fn obeys_eq_spec() -> bool {
        true
    }

    open spec fn eq_spec(&self, other: &Self) -> bool {
        self.same_number(*other)
    }
}

/// Errors of configuration, persistence and framing.
#[derive(Debug, PartialEq, Eq)]
pub enum WsCkptError {
    Bincode(String),
    Io(String),
    Json(String),
    FrameTooLarge { size: u64, max: u32 },
    Config(String),
}

impl WsCkptError {
    /// The message of the error.
    pub open spec fn text(self) -> Seq<char> {
        match self {
            WsCkptError::Bincode(e) => "bincode error: "@ + e@,
            WsCkptError::Io(e) => "io error: "@ + e@,
            WsCkptError::Json(e) => "json error: "@ + e@,
            WsCkptError::FrameTooLarge { size, max } => "frame too large: "@ + decimal(size as nat)
                + " bytes (max "@ + decimal(max as nat) + ")"@,
            WsCkptError::Config(e) => "config error: "@ + e@,
        }
    }

    /// The message of the error.
    pub fn to_text(&self) -> (r: String)
        ensures
            r@ == self.text(),
    {
        match self {
            WsCkptError::Bincode(e) => joined("bincode error: ", e.as_str()),
            WsCkptError::Io(e) => joined("io error: ", e.as_str()),
            WsCkptError::Json(e) => joined("json error: ", e.as_str()),
            WsCkptError::FrameTooLarge { size, max } => {
                let mut m = "frame too large: ".to_owned();
                push_decimal(&mut m, *size);
                m.append(" bytes (max ");
                push_decimal(&mut m, *max as u64);
                m.append(")");
                m
            },
            WsCkptError::Config(e) => joined("config error: ", e.as_str()),
        }
    }
}

/// Two texts, one after the other.
pub fn joined(a: &str, b: &str) -> (r: String)
    ensures
        r@ == a@ + b@,
{
    let mut m = a.to_owned();
    m.append(b);
    m
}

/// The kinds of storage backend.
#[derive(Clone, Copy, Debug, PartialEq, Eq, Structural)]
pub enum BackendType {
    BtrfsBase,
    BtrfsLoop,
}

/// Daemon configuration.
#[derive(Debug)]
pub struct DaemonConfig {
    pub mount_path: String,
    pub socket_path: String,
    pub log_level: String,
    pub auto_cleanup: bool,
    pub auto_cleanup_keep: CleanupRetention,
    /// Seconds between auto-cleanup runs.
    pub auto_cleanup_interval_secs: u64,
    /// Seconds between health checks.
    pub health_check_interval_secs: u64,
    /// Configured backend type: "auto", "btrfs-base" or "btrfs-loop".
    pub backend_type: String,
    /// Target image size in GB, applied at bootstrap.
    pub img_size: u64,
    /// Cap of the initial image size, as a percentage of the host partition.
    pub img_max_percent: Percent,
    /// Free space in bytes below which health checks report.
    pub min_free_bytes: u64,
    /// Free space percentage below which health checks report.
    pub min_free_percent: Percent,
}

impl DaemonConfig {
    /// The backend type that the configuration names; none where it is to be detected.
    pub fn parse_backend_type(&self) -> (r: Option<BackendType>)
        ensures
            r == if self.backend_type@ == "btrfs-loop"@ {
                Some(BackendType::BtrfsLoop)
            } else if self.backend_type@ == "btrfs-base"@ {
                Some(BackendType::BtrfsBase)
            } else {
                None::<BackendType>
            },
    {
        if str_eq(self.backend_type.as_str(), "btrfs-loop") {
            Some(BackendType::BtrfsLoop)
        } else if str_eq(self.backend_type.as_str(), "btrfs-base") {
            Some(BackendType::BtrfsBase)
        } else {
            None
        }
    }

    /// The automatic cleanup settings that a configuration file asks for, each at its default
    /// where the file does not set it, and the file's backend type.
    pub open spec fn follows_file(self, file: FileConfig) -> bool {
        &&& self.auto_cleanup == file.effective_auto_cleanup()
        &&& self.auto_cleanup_keep@ == file.effective_keep()
        &&& self.auto_cleanup_interval_secs == file.effective_cleanup_interval()
        &&& self.health_check_interval_secs == file.effective_health_interval()
        &&& self.backend_type@ == file.backend.kind@
    }

    /// The configuration that the daemon starts with: paths and log level from the command
    /// line, the rest from the configuration file or its defaults.
    pub fn at_startup(
        mount_path: String,
        socket_path: String,
        log_level: String,
        file: &FileConfig,
    ) -> (r: Self)
        ensures
            r.mount_path@ == mount_path@,
            r.socket_path@ == socket_path@,
            r.log_level@ == log_level@,
            r.follows_file(*file),
            r.img_size == file.effective_img_size(),
            r.img_max_percent == file.effective_img_max_percent(),
            r.min_free_bytes == 536_870_912,
            r.min_free_percent.bits == ONE_PERCENT_BITS,
    {
        DaemonConfig {
            mount_path,
            socket_path,
            log_level,
            auto_cleanup: file.auto_cleanup(),
            auto_cleanup_keep: file.keep(),
            auto_cleanup_interval_secs: file.cleanup_interval(),
            health_check_interval_secs: file.health_interval(),
            backend_type: file.backend.kind.clone(),
            img_size: file.img_size(),
            img_max_percent: file.img_max_percent(),
            min_free_bytes: 536_870_912,
            min_free_percent: Percent { bits: ONE_PERCENT_BITS },
        }
    }

    /// Applies a freshly loaded configuration file. The image settings take effect at
    /// bootstrap only and stay as they are.
    pub fn apply_global_config(&mut self, file: &FileConfig)
        ensures
            final(self).follows_file(*file),
            final(self).mount_path == old(self).mount_path,
            final(self).socket_path == old(self).socket_path,
            final(self).log_level == old(self).log_level,
            final(self).img_size == old(self).img_size,
            final(self).img_max_percent == old(self).img_max_percent,
            final(self).min_free_bytes == old(self).min_free_bytes,
            final(self).min_free_percent == old(self).min_free_percent,
    {
        self.auto_cleanup = file.auto_cleanup();
        self.auto_cleanup_keep = file.keep();
        self.auto_cleanup_interval_secs = file.cleanup_interval();
        self.health_check_interval_secs = file.health_interval();
        self.backend_type = file.backend.kind.clone();
    }

    /// The report of this configuration.
    pub fn report(&self) -> (r: ConfigReport)
        ensures
            r.mount_path@ == self.mount_path@,
            r.socket_path@ == self.socket_path@,
            r.log_level@ == self.log_level@,
            r.auto_cleanup == self.auto_cleanup,
            r.auto_cleanup_keep@ == self.auto_cleanup_keep@,
            r.auto_cleanup_interval_secs == self.auto_cleanup_interval_secs,
            r.health_check_interval_secs == self.health_check_interval_secs,
            r.img_size == self.img_size,
            r.img_max_percent == self.img_max_percent,
    {
        ConfigReport {
            mount_path: self.mount_path.clone(),
            socket_path: self.socket_path.clone(),
            log_level: self.log_level.clone(),
            auto_cleanup: self.auto_cleanup,
            auto_cleanup_keep: self.auto_cleanup_keep.clone(),
            auto_cleanup_interval_secs: self.auto_cleanup_interval_secs,
            health_check_interval_secs: self.health_check_interval_secs,
            img_size: self.img_size,
            img_max_percent: self.img_max_percent,
        }
    }
}

impl Default for DaemonConfig {
    fn default() -> (r: Self)
        ensures
            r.mount_path@ == DEFAULT_MOUNT_PATH@,
            r.socket_path@ == DEFAULT_SOCKET_PATH@,
            r.log_level@ == "info"@,
            r.auto_cleanup == DEFAULT_AUTO_CLEANUP,
            r.auto_cleanup_keep@ == RetentionView::Count(DEFAULT_AUTO_CLEANUP_KEEP_COUNT),
            r.auto_cleanup_interval_secs == DEFAULT_AUTO_CLEANUP_INTERVAL_SECS,
            r.health_check_interval_secs == DEFAULT_HEALTH_CHECK_INTERVAL_SECS,
            r.backend_type@ == "auto"@,
            r.img_size == DEFAULT_IMG_SIZE_GB,
            r.img_max_percent.bits == DEFAULT_IMG_MAX_PERCENT_BITS,
            r.min_free_bytes == 536_870_912,
            r.min_free_percent.bits == ONE_PERCENT_BITS,
    {
        DaemonConfig {
            mount_path: DEFAULT_MOUNT_PATH.to_owned(),
            socket_path: DEFAULT_SOCKET_PATH.to_owned(),
            log_level: "info".to_owned(),
            auto_cleanup: DEFAULT_AUTO_CLEANUP,
            auto_cleanup_keep: default_auto_cleanup_keep(),
            auto_cleanup_interval_secs: DEFAULT_AUTO_CLEANUP_INTERVAL_SECS,
            health_check_interval_secs: DEFAULT_HEALTH_CHECK_INTERVAL_SECS,
            backend_type: "auto".to_owned(),
            img_size: DEFAULT_IMG_SIZE_GB,
            img_max_percent: Percent { bits: DEFAULT_IMG_MAX_PERCENT_BITS },
            min_free_bytes: 536_870_912,
            min_free_percent: Percent { bits: ONE_PERCENT_BITS },
        }
    }
}

/// Report of the current daemon configuration.
#[derive(Debug, PartialEq)]
pub struct ConfigReport {
    pub mount_path: String,
    pub socket_path: String,
    pub log_level: String,
    pub auto_cleanup: bool,
    pub auto_cleanup_keep: CleanupRetention,
    pub auto_cleanup_interval_secs: u64,
    pub health_check_interval_secs: u64,
    pub img_size: u64,
    pub img_max_percent: Percent,
}

/// Image settings, which take effect at bootstrap only.
#[derive(Clone, Copy, Debug, PartialEq)]
pub struct BtrfsLoopConfig {
    /// Target image size in GB.
    pub img_size: Option<u64>,
    /// Cap of the initial image size, as a percentage of the host partition.
    pub img_max_percent: Option<Percent>,
}

impl Default for BtrfsLoopConfig {
    fn default() -> (r: Self)
        ensures
            r.img_size is None,
            r.img_max_percent is None,
    {
        BtrfsLoopConfig { img_size: None, img_max_percent: None }
    }
}

/// Backend section of the configuration file.
#[derive(Debug, PartialEq)]
pub struct BackendConfig {
    /// "auto", "btrfs-base" or "btrfs-loop".
    pub kind: String,
    pub btrfs_loop: Option<BtrfsLoopConfig>,
}

/// The backend type used where the file names none.
pub fn default_backend_type() -> (r: String)
    ensures
        r@ == "auto"@,
{
    "auto".to_owned()
}

impl Default for BackendConfig {
    fn default() -> (r: Self)
        ensures
            r.kind@ == "auto"@,
            r.btrfs_loop is None,
    {
        BackendConfig { kind: default_backend_type(), btrfs_loop: None }
    }
}

/// The configuration file; a setting that is missing is at its default.
#[derive(Debug, PartialEq)]
pub struct FileConfig {
    pub auto_cleanup: Option<bool>,
    pub auto_cleanup_keep: Option<CleanupRetention>,
    pub auto_cleanup_interval_secs: Option<u64>,
    pub health_check_interval_secs: Option<u64>,
    pub backend: BackendConfig,
}

impl Default for FileConfig {
    fn default() -> (r: Self)
        ensures
            r.auto_cleanup is None,
            r.auto_cleanup_keep is None,
            r.auto_cleanup_interval_secs is None,
            r.health_check_interval_secs is None,
            r.backend.kind@ == "auto"@,
            r.backend.btrfs_loop is None,
    {
        FileConfig {
            auto_cleanup: None,
            auto_cleanup_keep: None,
            auto_cleanup_interval_secs: None,
            health_check_interval_secs: None,
            backend: BackendConfig::default(),
        }
    }
}

impl FileConfig {
    /// Whether cleanup is on.
    pub open spec fn effective_auto_cleanup(self) -> bool {
        self.auto_cleanup.unwrap_or(DEFAULT_AUTO_CLEANUP)
    }

    /// The retention in force.
    pub open spec fn effective_keep(self) -> RetentionView {
        match self.auto_cleanup_keep {
            Some(k) => k@,
            None => RetentionView::Count(DEFAULT_AUTO_CLEANUP_KEEP_COUNT),
        }
    }

    /// The cleanup interval in force.
    pub open spec fn effective_cleanup_interval(self) -> u64 {
        self.auto_cleanup_interval_secs.unwrap_or(DEFAULT_AUTO_CLEANUP_INTERVAL_SECS)
    }

    /// The health check interval in force.
    pub open spec fn effective_health_interval(self) -> u64 {
        self.health_check_interval_secs.unwrap_or(DEFAULT_HEALTH_CHECK_INTERVAL_SECS)
    }

    /// The image size that the file sets.
    pub open spec fn set_img_size(self) -> Option<u64> {
        match self.backend.btrfs_loop {
            Some(b) => b.img_size,
            None => None,
        }
    }

    /// The image percentage that the file sets.
    pub open spec fn set_img_max_percent(self) -> Option<Percent> {
        match self.backend.btrfs_loop {
            Some(b) => b.img_max_percent,
            None => None,
        }
    }

    /// The image size in force.
    pub open spec fn effective_img_size(self) -> u64 {
        self.set_img_size().unwrap_or(DEFAULT_IMG_SIZE_GB)
    }

    /// The image percentage in force.
    pub open spec fn effective_img_max_percent(self) -> Percent {
        self.set_img_max_percent().unwrap_or(Percent { bits: DEFAULT_IMG_MAX_PERCENT_BITS })
    }

    /// Whether cleanup is on.
    pub fn auto_cleanup(&self) -> (r: bool)
        ensures
            r == self.effective_auto_cleanup(),
    {
        match self.auto_cleanup {
            Some(v) => v,
            None => DEFAULT_AUTO_CLEANUP,
        }
    }

    /// The retention in force.
    pub fn keep(&self) -> (r: CleanupRetention)
        ensures
            r@ == self.effective_keep(),
    {
        match &self.auto_cleanup_keep {
            Some(k) => k.clone(),
            None => default_auto_cleanup_keep(),
        }
    }

    /// The cleanup interval in force.
    pub fn cleanup_interval(&self) -> (r: u64)
        ensures
            r == self.effective_cleanup_interval(),
    {
        match self.auto_cleanup_interval_secs {
            Some(v) => v,
            None => DEFAULT_AUTO_CLEANUP_INTERVAL_SECS,
        }
    }

    /// The health check interval in force.
    pub fn health_interval(&self) -> (r: u64)
        ensures
            r == self.effective_health_interval(),
    {
        match self.health_check_interval_secs {
            Some(v) => v,
            None => DEFAULT_HEALTH_CHECK_INTERVAL_SECS,
        }
    }

    /// The image size that the file sets.
    pub fn configured_img_size(&self) -> (r: Option<u64>)
        ensures
            r == self.set_img_size(),
    {
        match &self.backend.btrfs_loop {
            Some(b) => b.img_size,
            None => None,
        }
    }

    /// The image percentage that the file sets.
    pub fn configured_img_max_percent(&self) -> (r: Option<Percent>)
        ensures
            r == self.set_img_max_percent(),
    {
        match &self.backend.btrfs_loop {
            Some(b) => b.img_max_percent,
            None => None,
        }
    }

    /// The image size in force.
    pub fn img_size(&self) -> (r: u64)
        ensures
            r == self.effective_img_size(),
    {
        match self.configured_img_size() {
            Some(v) => v,
            None => DEFAULT_IMG_SIZE_GB,
        }
    }

    /// The image percentage in force.
    pub fn img_max_percent(&self) -> (r: Percent)
        ensures
            r == self.effective_img_max_percent(),
    {
        match self.configured_img_max_percent() {
            Some(v) => v,
            None => Percent { bits: DEFAULT_IMG_MAX_PERCENT_BITS },
        }
    }
}

/// Rejects a configuration file whose image percentage is not a finite number from 0 to 100.
/// `path` names the file, and `shown` is the percentage as it is displayed.
pub fn validate_file_config(fc: &FileConfig, path: &str, shown: &str) -> (r: Result<
    (),
    WsCkptError,
>)
    ensures
        match r {
            Ok(_) => fc.set_img_max_percent() matches Some(p) ==> p.in_range(),
            Err(e) => {
                &&& fc.set_img_max_percent() matches Some(p) && !p.in_range()
                &&& e matches WsCkptError::Config(m) && m@
                    == "backend.btrfs-loop.img_max_percent in "@ + path@
                    + ": expected a finite value in 0.0..=100.0 (got "@ + shown@ + ")"@
            },
        },
{
    if let Some(p) = fc.configured_img_max_percent() {
        if !(p.bits <= HUNDRED_PERCENT_BITS || p.bits == SIGN_BIT) {
            let mut m = "backend.btrfs-loop.img_max_percent in ".to_owned();
            m.append(path);
            m.append(": expected a finite value in 0.0..=100.0 (got ");
            m.append(shown);
            m.append(")");
            return Err(WsCkptError::Config(m));
        }
    }
    Ok(())
}

/// Settings that a user asks to change in the configuration file.
#[derive(Debug)]
pub struct GlobalUpdate {
    pub health_check_interval: Option<u64>,
    pub img_size: Option<u64>,
    pub img_max_percent: Option<Percent>,
    pub auto_cleanup: Option<bool>,
    pub auto_cleanup_keep: Option<CleanupRetention>,
    pub auto_cleanup_interval_secs: Option<u64>,
}

impl GlobalUpdate {
    /// Whether the update touches settings that take effect at bootstrap only.
    pub open spec fn touches_image(self) -> bool {
        self.img_size is Some || self.img_max_percent is Some
    }

    /// Whether the update touches settings that take effect at bootstrap only.
    pub fn has_img_settings(&self) -> (r: bool)
        ensures
            r == self.touches_image(),
    {
        self.img_size.is_some() || self.img_max_percent.is_some()
    }
}

/// The setting asked for, or else the one there is.
pub open spec fn updated<T>(asked: Option<T>, current: Option<T>) -> Option<T> {
    if asked is Some {
        asked
    } else {
        current
    }
}

/// The view of an optional retention.
pub open spec fn keep_view(k: Option<CleanupRetention>) -> Option<RetentionView> {
    match k {
        Some(k) => Some(k@),
        None => None,
    }
}

impl FileConfig {
    /// Changes the settings that are asked for and keeps the others.
    pub fn apply_update(&mut self, update: GlobalUpdate)
        ensures
            final(self).auto_cleanup == updated(update.auto_cleanup, old(self).auto_cleanup),
            keep_view(final(self).auto_cleanup_keep) == updated(
                keep_view(update.auto_cleanup_keep),
                keep_view(old(self).auto_cleanup_keep),
            ),
            final(self).auto_cleanup_interval_secs == updated(
                update.auto_cleanup_interval_secs,
                old(self).auto_cleanup_interval_secs,
            ),
            final(self).health_check_interval_secs == updated(
                update.health_check_interval,
                old(self).health_check_interval_secs,
            ),
            final(self).backend.kind == old(self).backend.kind,
            final(self).set_img_size() == updated(update.img_size, old(self).set_img_size()),
            final(self).set_img_max_percent() == updated(
                update.img_max_percent,
                old(self).set_img_max_percent(),
            ),
            !update.touches_image() ==> final(self).backend.btrfs_loop
                == old(self).backend.btrfs_loop,
            update.touches_image() ==> final(self).backend.btrfs_loop is Some,
    {
        if update.health_check_interval.is_some() {
            self.health_check_interval_secs = update.health_check_interval;
        }
        if update.auto_cleanup.is_some() {
            self.auto_cleanup = update.auto_cleanup;
        }
        if update.auto_cleanup_interval_secs.is_some() {
            self.auto_cleanup_interval_secs = update.auto_cleanup_interval_secs;
        }
        if update.img_size.is_some() || update.img_max_percent.is_some() {
            let mut bl = match self.backend.btrfs_loop {
                Some(b) => b,
                None => BtrfsLoopConfig::default(),
            };
            if update.img_size.is_some() {
                bl.img_size = update.img_size;
            }
            if update.img_max_percent.is_some() {
                bl.img_max_percent = update.img_max_percent;
            }
            self.backend.btrfs_loop = Some(bl);
        }
        if let Some(k) = update.auto_cleanup_keep {
            self.auto_cleanup_keep = Some(k);
        }
    }
}

/// JSON shape of the global configuration.
#[derive(Debug, PartialEq)]
pub struct GlobalConfigJson {
    pub schema: &'static str,
    pub config_file: String,
    pub mount_path: String,
    pub socket_path: String,
    pub auto_cleanup: bool,
    pub auto_cleanup_keep: RetentionJson,
    /// Whether automatic cleanup does nothing: it is off, or its retention disables it.
    pub auto_cleanup_is_disabled: bool,
    pub auto_cleanup_interval_secs: u64,
    pub health_check_interval_secs: u64,
    pub img_size_gb: u64,
    pub img_max_percent: Percent,
}

/// Renders a configuration report in the JSON shape of the global configuration.
pub fn config_report_to_global_json(cr: &ConfigReport) -> (r: GlobalConfigJson)
    ensures
        r.schema@ == GLOBAL_CONFIG_JSON_SCHEMA@,
        r.config_file@ == CONFIG_FILE_PATH@,
        r.mount_path@ == cr.mount_path@,
        r.socket_path@ == cr.socket_path@,
        r.auto_cleanup == cr.auto_cleanup,
        r.auto_cleanup_keep.stands_for() == cr.auto_cleanup_keep@,
        r.auto_cleanup_is_disabled == (!cr.auto_cleanup || cr.auto_cleanup_keep@.is_disabled()),
        r.auto_cleanup_interval_secs == cr.auto_cleanup_interval_secs,
        r.health_check_interval_secs == cr.health_check_interval_secs,
        r.img_size_gb == cr.img_size,
        r.img_max_percent == cr.img_max_percent,
{
    GlobalConfigJson {
        schema: GLOBAL_CONFIG_JSON_SCHEMA,
        config_file: CONFIG_FILE_PATH.to_owned(),
        mount_path: cr.mount_path.clone(),
        socket_path: cr.socket_path.clone(),
        auto_cleanup: cr.auto_cleanup,
        auto_cleanup_keep: RetentionJson::from(&cr.auto_cleanup_keep),
        auto_cleanup_is_disabled: !cr.auto_cleanup || cr.auto_cleanup_keep.is_disabled(),
        auto_cleanup_interval_secs: cr.auto_cleanup_interval_secs,
        health_check_interval_secs: cr.health_check_interval_secs,
        img_size_gb: cr.img_size,
        img_max_percent: cr.img_max_percent,
    }
}

/// Renders a configuration file, with defaults for what it does not set, in the JSON shape of
/// the global configuration.
pub fn file_config_to_global_json(fc: &FileConfig) -> (r: GlobalConfigJson)
    ensures
        r.schema@ == GLOBAL_CONFIG_JSON_SCHEMA@,
        r.config_file@ == CONFIG_FILE_PATH@,
        r.mount_path@ == DEFAULT_MOUNT_PATH@,
        r.socket_path@ == DEFAULT_SOCKET_PATH@,
        r.auto_cleanup == fc.effective_auto_cleanup(),
        r.auto_cleanup_keep.stands_for() == fc.effective_keep(),
        r.auto_cleanup_is_disabled == (!fc.effective_auto_cleanup()
            || fc.effective_keep().is_disabled()),
        r.auto_cleanup_interval_secs == fc.effective_cleanup_interval(),
        r.health_check_interval_secs == fc.effective_health_interval(),
        r.img_size_gb == fc.effective_img_size(),
        r.img_max_percent == fc.effective_img_max_percent(),
{
    let keep = fc.keep();
    let auto_cleanup = fc.auto_cleanup();
    GlobalConfigJson {
        schema: GLOBAL_CONFIG_JSON_SCHEMA,
        config_file: CONFIG_FILE_PATH.to_owned(),
        mount_path: DEFAULT_MOUNT_PATH.to_owned(),
        socket_path: DEFAULT_SOCKET_PATH.to_owned(),
        auto_cleanup,
        auto_cleanup_keep: RetentionJson::from(&keep),
        auto_cleanup_is_disabled: !auto_cleanup || keep.is_disabled(),
        auto_cleanup_interval_secs: fc.cleanup_interval(),
        health_check_interval_secs: fc.health_interval(),
        img_size_gb: fc.img_size(),
        img_max_percent: fc.img_max_percent(),
    }
}

} // verus!
