//! The daemon's configuration: defaults, partial files, range check.

use vstd::prelude::*;
use crate::text;

verus! {

/// Where the configuration file is.
pub const CONFIG_PATH: &'static str = "/data/adb/rsc/config.toml";

/// The cutoff when the file names none.
pub fn default_cutoff() -> (n: u8)
    ensures
        n == 80,
{
    80
}

/// The resume threshold when the file names none.
pub fn default_resume() -> (n: u8)
    ensures
        n == 70,
{
    70
}

/// Whether debug lines are logged when the file does not say.
pub fn default_debug() -> (b: bool)
    ensures
        !b,
{
    false
}

/// The log file when the file names none.
pub fn default_log_file() -> (s: String)
    ensures
        s@ == "/data/adb/rsc/rsc.log"@,
{
    "/data/adb/rsc/rsc.log".to_string()
}

/// The size in KiB above which the log is rotated when the file names none.
pub fn default_log_max_size() -> (n: u64)
    ensures
        n == 512,
{
    512
}

/// How many rotated logs are kept when the file does not say.
pub fn default_log_keep() -> (n: u32)
    ensures
        n == 3,
{
    3
}

/// The settings of one daemon.
#[derive(Debug, Clone)]
pub struct Config {
    /// Charging is cut off at this percentage.
    pub cutoff: u8,
    /// Charging resumes at this percentage.
    pub resume: u8,
    /// Whether debug lines are logged.
    pub debug: bool,
    /// The log file.
    pub log_file: String,
    /// The size in KiB above which the log is rotated.
    pub log_max_size_kb: u64,
    /// How many rotated logs are kept.
    pub log_keep: u32,
}

/// The settings that a configuration file names: any of them may be left out.
#[derive(Debug)]
pub struct PartialConfig {
    /// See [`Config::cutoff`].
    pub cutoff: Option<u8>,
    /// See [`Config::resume`].
    pub resume: Option<u8>,
    /// See [`Config::debug`].
    pub debug: Option<bool>,
    /// See [`Config::log_file`].
    pub log_file: Option<String>,
    /// See [`Config::log_max_size_kb`].
    pub log_max_size_kb: Option<u64>,
    /// See [`Config::log_keep`].
    pub log_keep: Option<u32>,
}

/// What came of looking for the configuration file.
#[derive(Debug)]
pub enum ConfigSource {
    /// There is no such file.
    Missing,
    /// The file could not be read; holds the text of the error.
    Unreadable(String),
    /// The file is not a configuration in TOML; holds the text of the error.
    Malformed(String),
    /// The file names these settings.
    Parsed(PartialConfig),
}

/// Why no configuration could be had from the file.
#[derive(Debug)]
pub enum ConfigError {
    /// The file could not be read.
    Io(String),
    /// The file is not a configuration in TOML.
    Parse(String),
    /// The thresholds are out of range or in the wrong order.
    InvalidRange(String),
}

impl ConfigError {
    /// The error in words.
    pub open spec fn words(self) -> Seq<char> {
        match self {
            ConfigError::Io(e) => "io: "@ + e@,
            ConfigError::Parse(e) => "parse: "@ + e@,
            ConfigError::InvalidRange(s) => "range: "@ + s@,
        }
    }

    /// The error in words.
    pub fn to_string(&self) -> (s: String)
        ensures
            s@ == self.words(),
            match self {
                ConfigError::Io(e) => s@ == "io: "@ + e@,
                ConfigError::Parse(e) => s@ == "parse: "@ + e@,
                ConfigError::InvalidRange(e) => s@ == "range: "@ + e@,
            },
    {
        match self {
            ConfigError::Io(e) => "io: ".to_string().concat(e.as_str()),
            ConfigError::Parse(e) => "parse: ".to_string().concat(e.as_str()),
            ConfigError::InvalidRange(s) => "range: ".to_string().concat(s.as_str()),
        }
    }
}

/// Whether two thresholds make a hysteresis band within 0 to 100 percent.
pub open spec fn valid_range(cutoff: u8, resume: u8) -> bool {
    resume < cutoff <= 100
}

/// Why two thresholds do not: the order is looked at first.
pub open spec fn range_complaint(cutoff: u8, resume: u8) -> Seq<char> {
    if cutoff <= resume {
        "cutoff ("@ + text::decimal(cutoff as nat) + ") must be strictly greater than resume ("@
            + text::decimal(resume as nat) + ")"@
    } else {
        "cutoff and resume must be in 0..=100"@
    }
}

impl Default for Config {
    fn default() -> (c: Self)
        ensures
            c.cutoff == 80,
            c.resume == 70,
            !c.debug,
            c.log_file@ == "/data/adb/rsc/rsc.log"@,
            c.log_max_size_kb == 512,
            c.log_keep == 3,
    {
        Config {
            cutoff: 80,
            resume: 70,
            debug: false,
            log_file: "/data/adb/rsc/rsc.log".to_string(),
            log_max_size_kb: 512,
            log_keep: 3,
        }
    }
}

impl Config {
    /// Whether every setting has its default value.
    pub open spec fn is_default(self) -> bool {
        &&& self.cutoff == 80
        &&& self.resume == 70
        &&& !self.debug
        &&& self.log_file@ == "/data/adb/rsc/rsc.log"@
        &&& self.log_max_size_kb == 512
        &&& self.log_keep == 3
    }

    /// Whether this is `partial` with each setting that it leaves out at its default.
    pub open spec fn completes(self, partial: PartialConfig) -> bool {
        &&& self.cutoff == partial.cutoff.unwrap_or(80)
        &&& self.resume == partial.resume.unwrap_or(70)
        &&& self.debug == partial.debug.unwrap_or(false)
        &&& self.log_file@ == match partial.log_file {
            Some(s) => s@,
            None => "/data/adb/rsc/rsc.log"@,
        }
        &&& self.log_max_size_kb == partial.log_max_size_kb.unwrap_or(512)
        &&& self.log_keep == partial.log_keep.unwrap_or(3)
    }

    /// Fills in the default of each setting that `partial` leaves out.
    pub fn from_partial(partial: PartialConfig) -> (c: Config)
        ensures
            c.completes(partial),
            c.cutoff == match partial.cutoff {
                Some(n) => n,
                None => 80,
            },
            c.resume == match partial.resume {
                Some(n) => n,
                None => 70,
            },
            c.debug == match partial.debug {
                Some(b) => b,
                None => false,
            },
            c.log_file@ == match partial.log_file {
                Some(s) => s@,
                None => "/data/adb/rsc/rsc.log"@,
            },
            c.log_max_size_kb == match partial.log_max_size_kb {
                Some(n) => n,
                None => 512,
            },
            c.log_keep == match partial.log_keep {
                Some(n) => n,
                None => 3,
            },
    {
        Config {
            cutoff: partial.cutoff.unwrap_or(default_cutoff()),
            resume: partial.resume.unwrap_or(default_resume()),
            debug: partial.debug.unwrap_or(default_debug()),
            log_file: match partial.log_file {
                Some(s) => s,
                None => default_log_file(),
            },
            log_max_size_kb: partial.log_max_size_kb.unwrap_or(default_log_max_size()),
            log_keep: partial.log_keep.unwrap_or(default_log_keep()),
        }
    }

    /// The configuration, from what came of looking for its file. Without a file the defaults
    /// hold, so that the daemon starts on a fresh install.
    pub fn load(source: ConfigSource) -> (r: Result<Config, ConfigError>)
        ensures
            match source {
                ConfigSource::Missing => r matches Ok(c) && c.is_default() && c.cutoff == 80
                    && c.resume == 70 && !c.debug && c.log_file@ == "/data/adb/rsc/rsc.log"@
                    && c.log_max_size_kb == 512 && c.log_keep == 3,
                ConfigSource::Unreadable(e) => r matches Err(ConfigError::Io(f)) && f@ == e@,
                ConfigSource::Malformed(e) => r matches Err(ConfigError::Parse(f)) && f@ == e@,
                ConfigSource::Parsed(partial) => {
                    let cutoff = partial.cutoff.unwrap_or(80);
                    let resume = partial.resume.unwrap_or(70);
                    match r {
                        Ok(c) => {
                            &&& valid_range(cutoff, resume)
                            &&& c.completes(partial)
                            &&& c.cutoff == cutoff && c.resume == resume
                            &&& c.cutoff > c.resume && c.cutoff <= 100 && c.resume <= 100
                        },
                        Err(e) => {
                            &&& !valid_range(cutoff, resume)
                            &&& !(cutoff > resume && cutoff <= 100 && resume <= 100)
                            &&& e matches ConfigError::InvalidRange(s)
                            &&& s@ == range_complaint(cutoff, resume)
                        },
                    }
                },
            },
    {
        match source {
            ConfigSource::Missing => Ok(Config::default()),
            ConfigSource::Unreadable(e) => Err(ConfigError::Io(e)),
            ConfigSource::Malformed(e) => Err(ConfigError::Parse(e)),
            ConfigSource::Parsed(partial) => {
                let cfg = Config::from_partial(partial);
                match cfg.validate() {
                    Ok(_) => Ok(cfg),
                    Err(e) => Err(e),
                }
            },
        }
    }

    /// Checks that the cutoff is above the resume threshold and that both are percentages.
    pub fn validate(&self) -> (r: Result<(), ConfigError>)
        ensures
            match r {
                Ok(_) => valid_range(self.cutoff, self.resume),
                Err(e) => {
                    &&& !valid_range(self.cutoff, self.resume)
                    &&& e matches ConfigError::InvalidRange(s)
                    &&& s@ == range_complaint(self.cutoff, self.resume)
                },
            },
            r is Ok <==> self.cutoff > self.resume && self.cutoff <= 100 && self.resume <= 100,
            r matches Err(e) ==> (e matches ConfigError::InvalidRange(s) && s@ == if self.cutoff
                <= self.resume {
                "cutoff ("@ + text::decimal(self.cutoff as nat)
                    + ") must be strictly greater than resume ("@ + text::decimal(
                    self.resume as nat,
                ) + ")"@
            } else {
                "cutoff and resume must be in 0..=100"@
            }),
    {
        if self.cutoff <= self.resume {
            let mut s = "cutoff (".to_string();
            s.append(text::decimal_text(self.cutoff as u64).as_str());
            s.append(") must be strictly greater than resume (");
            s.append(text::decimal_text(self.resume as u64).as_str());
            s.append(")");
            return Err(ConfigError::InvalidRange(s));
        }
        if self.cutoff > 100 || self.resume > 100 {
            return Err(
                ConfigError::InvalidRange("cutoff and resume must be in 0..=100".to_string()),
            );
        }
        Ok(())
    }
}

/// The defaults make a valid configuration, and a file that names no setting gives them.
pub proof fn empty_file_gives_defaults(c: Config, partial: PartialConfig)
    requires
        partial.cutoff is None,
        partial.resume is None,
        partial.debug is None,
        partial.log_file is None,
        partial.log_max_size_kb is None,
        partial.log_keep is None,
    ensures
        c.completes(partial) <==> c.is_default(),
        c.completes(partial) ==> valid_range(c.cutoff, c.resume),
{
}

/// Two thresholds make a valid range exactly if the cutoff is strictly above the resume threshold
/// and neither is above 100.
pub proof fn thresholds_are_ordered_percentages(cutoff: u8, resume: u8)
    ensures
        valid_range(cutoff, resume) <==> cutoff > resume && cutoff <= 100 && resume <= 100,
{
}

/// The complaint about two thresholds names both where their order is wrong, and the range
/// otherwise.
pub proof fn complaint_tells_what_is_wrong(cutoff: u8, resume: u8)
    ensures
        cutoff <= resume ==> range_complaint(cutoff, resume) == "cutoff ("@ + text::decimal(
            cutoff as nat,
        ) + ") must be strictly greater than resume ("@ + text::decimal(resume as nat) + ")"@,
        cutoff > resume ==> range_complaint(cutoff, resume)
            == "cutoff and resume must be in 0..=100"@,
{
}

/// What is accepted for one pair of thresholds is accepted for each pair that lies further apart
/// within 0 to 100 percent; and no threshold is both cutoff and resume.
pub proof fn wider_band_is_accepted_too(cutoff: u8, resume: u8, higher: u8, lower: u8)
    requires
        valid_range(cutoff, resume),
        cutoff <= higher <= 100,
        lower <= resume,
    ensures
        valid_range(higher, lower),
        !valid_range(resume, cutoff),
        !valid_range(cutoff, cutoff),
{
}

/// A setting that a file names is taken from it, whatever else it leaves out.
pub proof fn named_settings_are_kept(c: Config, partial: PartialConfig)
    requires
        c.completes(partial),
    ensures
        partial.cutoff matches Some(n) ==> c.cutoff == n,
        partial.resume matches Some(n) ==> c.resume == n,
        partial.debug matches Some(b) ==> c.debug == b,
        partial.log_file matches Some(s) ==> c.log_file@ == s@,
        partial.log_max_size_kb matches Some(n) ==> c.log_max_size_kb == n,
        partial.log_keep matches Some(n) ==> c.log_keep == n,
{
}

} // verus!
