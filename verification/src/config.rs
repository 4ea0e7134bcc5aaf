//! The configuration of the downloader: its sections, their defaults, what
//! makes a configuration valid, and how overrides apply.
//!
//! Paths are held as text. Reading configuration files and the environment
//! is the caller's part; what it read goes through [`ConfigBuilder`].

use crate::error::{ConfigError, DlNzbError};
use crate::text::{join_path, joined_path};
use vstd::prelude::*;
use vstd::string::*;

verus! {

/// The server and how to talk to it.
#[derive(Debug, Clone)]
pub struct UsenetConfig {
    pub server: String,
    pub port: u16,
    pub username: String,
    pub password: String,
    pub ssl: bool,
    pub verify_ssl_certs: bool,
    /// The size of the connection pool.
    pub connections: u16,
    /// Seconds.
    pub timeout: u64,
    pub retry_attempts: u8,
    /// Milliseconds.
    pub retry_delay: u64,
    /// How many requests are written to a connection before any reply is
    /// read.
    pub pipeline_size: usize,
    /// Seconds to keep trying to lease a connection for a batch.
    pub connection_wait_timeout: u64,
}

/// Where downloads go.
#[derive(Debug, Clone)]
pub struct DownloadConfig {
    pub dir: String,
    pub temp_dir: String,
    pub create_subfolders: bool,
    pub overwrite_existing: bool,
    pub user_agent: String,
    /// Fetch every file again, also those that look complete.
    pub force_redownload: bool,
}

/// Memory and buffer sizes.
#[derive(Debug, Clone)]
pub struct MemoryConfig {
    pub max_segments_in_memory: usize,
    pub stream_to_disk: bool,
    pub io_buffer_size: usize,
    pub max_concurrent_files: usize,
    pub segment_retry_buffer: usize,
}

/// What happens after the download.
#[derive(Debug, Clone)]
pub struct PostProcessingConfig {
    pub auto_par2_repair: bool,
    pub auto_extract_rar: bool,
    pub auto_extract_zip: bool,
    pub delete_rar_after_extract: bool,
    pub delete_par2_after_repair: bool,
}

/// Logging.
#[derive(Debug, Clone)]
pub struct LoggingConfig {
    pub level: String,
    pub file: Option<String>,
    pub format: String,
}

/// The whole configuration.
#[derive(Debug, Clone)]
pub struct Config {
    pub usenet: UsenetConfig,
    pub download: DownloadConfig,
    pub memory: MemoryConfig,
    pub post_processing: PostProcessingConfig,
    pub logging: LoggingConfig,
}

/// Values given on the command line, which win over the configuration.
#[derive(Debug, Default)]
pub struct ConfigOverrides {
    pub server: Option<String>,
    pub port: Option<u16>,
    pub connections: Option<u16>,
    pub ssl: Option<bool>,
    pub download_dir: Option<String>,
    pub log_level: Option<String>,
}

impl UsenetConfig {
    /// Whether every value is the default: the placeholder server on port
    /// 119 without TLS, no credentials, 20 connections, batches of 50, and
    /// 300 s to wait for a connection.
    pub open spec fn is_default(&self) -> bool {
        &&& self.server@ == "news.example.com"@
        &&& self.port == 119
        &&& self.username@.len() == 0
        &&& self.password@.len() == 0
        &&& !self.ssl
        &&& self.verify_ssl_certs
        &&& self.connections == 20
        &&& self.timeout == 30
        &&& self.retry_attempts == 3
        &&& self.retry_delay == 1000
        &&& self.pipeline_size == 50
        &&& self.connection_wait_timeout == 300
    }
}

impl DownloadConfig {
    /// Whether every value is the default.
    pub open spec fn is_default(&self) -> bool {
        &&& self.dir@ == "downloads"@
        &&& self.temp_dir@ == ".dl-nzb-temp"@
        &&& self.create_subfolders
        &&& !self.overwrite_existing
        &&& self.user_agent@ == "dl-nzb/0.1.0"@
        &&& !self.force_redownload
    }
}

impl MemoryConfig {
    /// Whether every value is the default.
    pub open spec fn is_default(&self) -> bool {
        &&& self.max_segments_in_memory == 100
        &&& self.stream_to_disk
        &&& self.io_buffer_size == 4194304
        &&& self.max_concurrent_files == 5
        &&& self.segment_retry_buffer == 50
    }
}

impl PostProcessingConfig {
    /// Whether every value is the default.
    pub open spec fn is_default(&self) -> bool {
        &&& self.auto_par2_repair
        &&& self.auto_extract_rar
        &&& self.auto_extract_zip
        &&& !self.delete_rar_after_extract
        &&& !self.delete_par2_after_repair
    }
}

impl LoggingConfig {
    /// Whether every value is the default.
    pub open spec fn is_default(&self) -> bool {
        &&& self.level@ == "info"@
        &&& self.file.is_none()
        &&& self.format@ == "pretty"@
    }
}

impl Default for UsenetConfig {
    fn default() -> (c: Self)
        ensures
            c.is_default(),
    {
        UsenetConfig {
            server: String::from_str("news.example.com"),
            port: 119,
            username: String::new(),
            password: String::new(),
            ssl: false,
            verify_ssl_certs: true,
            connections: 20,
            timeout: 30,
            retry_attempts: 3,
            retry_delay: 1000,
            pipeline_size: 50,
            connection_wait_timeout: 300,
        }
    }
}

impl Default for DownloadConfig {
    fn default() -> (c: Self)
        ensures
            c.is_default(),
    {
        DownloadConfig {
            dir: String::from_str("downloads"),
            temp_dir: String::from_str(".dl-nzb-temp"),
            create_subfolders: true,
            overwrite_existing: false,
            user_agent: String::from_str("dl-nzb/0.1.0"),
            force_redownload: false,
        }
    }
}

impl Default for MemoryConfig {
    fn default() -> (c: Self)
        ensures
            c.is_default(),
    {
        MemoryConfig {
            max_segments_in_memory: 100,
            stream_to_disk: true,
            io_buffer_size: 4194304,
            max_concurrent_files: 5,
            segment_retry_buffer: 50,
        }
    }
}

impl Default for PostProcessingConfig {
    fn default() -> (c: Self)
        ensures
            c.is_default(),
    {
        PostProcessingConfig {
            auto_par2_repair: true,
            auto_extract_rar: true,
            auto_extract_zip: true,
            delete_rar_after_extract: false,
            delete_par2_after_repair: false,
        }
    }
}

impl Default for LoggingConfig {
    fn default() -> (c: Self)
        ensures
            c.is_default(),
    {
        LoggingConfig {
            level: String::from_str("info"),
            file: None,
            format: String::from_str("pretty"),
        }
    }
}

impl Default for Config {
    fn default() -> (c: Self)
        ensures
            c.is_default(),
            c.first_issue() == Some(ConfigIssue::NoServer),
    {
        Config {
            usenet: UsenetConfig::default(),
            download: DownloadConfig::default(),
            memory: MemoryConfig::default(),
            post_processing: PostProcessingConfig::default(),
            logging: LoggingConfig::default(),
        }
    }
}

/// What can be wrong with a configuration.
pub enum ConfigIssue {
    /// No server, or the placeholder of the defaults.
    NoServer,
    /// No user name or no password.
    NoCredentials,
    /// A pool size outside 1 to 100.
    InvalidConnections,
    /// An I/O buffer under 1 KiB.
    BufferTooSmall,
    /// No segment may be held in memory.
    NoSegmentsInMemory,
    /// A batch size of zero.
    NoPipeline,
    /// No download directory.
    NoDownloadDir,
}

/// A path with a leading `~` replaced by the home directory, where one is
/// known: `~` alone is the home directory, `~/rest` is `rest` joined to it.
pub open spec fn expanded(path: Seq<char>, home: Option<Seq<char>>) -> Seq<char> {
    match home {
        None => path,
        Some(h) => if path.len() >= 2 && path[0] == '~' && path[1] == '/' {
            joined_path(h, path.skip(2))
        } else if path.len() == 1 && path[0] == '~' {
            h
        } else {
            path
        },
    }
}

/// The text of an optional string.
pub open spec fn text_of(s: Option<String>) -> Option<Seq<char>> {
    match s {
        Some(t) => Some(t@),
        None => None,
    }
}

/// Replaces a leading `~` of `path` by the home directory, where one is
/// known.
pub fn expand_tilde(path: &str, home: &Option<String>) -> (out: String)
    ensures
        out@ == expanded(path@, text_of(*home)),
{
    match home {
        None => String::from_str(path),
        Some(h) => {
            let n: usize = path.unicode_len();
            if n >= 2 && path.get_char(0) == '~' && path.get_char(1) == '/' {
                let rest: &str = path.substring_char(2, n);
                assert(rest@ =~= path@.skip(2));
                join_path(h.as_str(), rest)
            } else if n == 1 && path.get_char(0) == '~' {
                h.clone()
            } else {
                String::from_str(path)
            }
        },
    }
}

impl Config {
    /// Whether every value of every section is the default.
    pub open spec fn is_default(&self) -> bool {
        &&& self.usenet.is_default()
        &&& self.download.is_default()
        &&& self.memory.is_default()
        &&& self.post_processing.is_default()
        &&& self.logging.is_default()
    }

    /// The first thing wrong with the configuration, in the order in which
    /// it is checked, or `None` where it is valid.
    pub open spec fn first_issue(&self) -> Option<ConfigIssue> {
        if self.usenet.server@.len() == 0 || self.usenet.server@ == "news.example.com"@ {
            Some(ConfigIssue::NoServer)
        } else if self.usenet.username@.len() == 0 || self.usenet.password@.len() == 0 {
            Some(ConfigIssue::NoCredentials)
        } else if self.usenet.connections == 0 || self.usenet.connections > 100 {
            Some(ConfigIssue::InvalidConnections)
        } else if self.memory.io_buffer_size < 1024 {
            Some(ConfigIssue::BufferTooSmall)
        } else if self.memory.max_segments_in_memory == 0 {
            Some(ConfigIssue::NoSegmentsInMemory)
        } else if self.usenet.pipeline_size == 0 {
            Some(ConfigIssue::NoPipeline)
        } else if self.download.dir@.len() == 0 {
            Some(ConfigIssue::NoDownloadDir)
        } else {
            None
        }
    }

    /// Whether the configuration is valid.
    pub open spec fn valid(&self) -> bool {
        self.first_issue().is_none()
    }

    /// Whether `error` is the error that reports `issue` for this
    /// configuration.
    pub open spec fn reports(&self, issue: ConfigIssue, error: DlNzbError) -> bool {
        match issue {
            ConfigIssue::NoServer => error matches DlNzbError::Config(ConfigError::NoServer),
            ConfigIssue::NoCredentials => error matches DlNzbError::Config(
                ConfigError::NoCredentials,
            ),
            ConfigIssue::InvalidConnections => error matches DlNzbError::Config(
                ConfigError::InvalidConnections { count },
            ) && count == self.usenet.connections,
            ConfigIssue::BufferTooSmall => error matches DlNzbError::Config(
                ConfigError::Invalid { field, reason },
            ) && field@ == "io_buffer_size"@ && reason@ == "Must be at least 1KB"@,
            ConfigIssue::NoSegmentsInMemory => error matches DlNzbError::Config(
                ConfigError::Invalid { field, reason },
            ) && field@ == "max_segments_in_memory"@ && reason@ == "Must be at least 1"@,
            ConfigIssue::NoPipeline => error matches DlNzbError::Config(
                ConfigError::Invalid { field, reason },
            ) && field@ == "pipeline_size"@ && reason@ == "Must be at least 1"@,
            ConfigIssue::NoDownloadDir => error matches DlNzbError::Config(
                ConfigError::InvalidPath { path, reason },
            ) && path@ == self.download.dir@ && reason@ == "Download directory not specified"@,
        }
    }

    /// Checks the configuration and reports the first thing wrong with it.
    pub fn validate(&self) -> (r: Result<(), DlNzbError>)
        ensures
            r.is_ok() == self.valid(),
            r.is_err() ==> self.reports(self.first_issue().unwrap(), r.unwrap_err()),
    {
        let placeholder: String = String::from_str("news.example.com");
        if self.usenet.server.as_str().is_empty() || self.usenet.server == placeholder {
            return Err(DlNzbError::Config(ConfigError::NoServer));
        }
        if self.usenet.username.as_str().is_empty() || self.usenet.password.as_str().is_empty() {
            return Err(DlNzbError::Config(ConfigError::NoCredentials));
        }
        if self.usenet.connections == 0 || self.usenet.connections > 100 {
            return Err(
                DlNzbError::Config(
                    ConfigError::InvalidConnections { count: self.usenet.connections },
                ),
            );
        }
        if self.memory.io_buffer_size < 1024 {
            return Err(
                DlNzbError::Config(
                    ConfigError::Invalid {
                        field: String::from_str("io_buffer_size"),
                        reason: String::from_str("Must be at least 1KB"),
                    },
                ),
            );
        }
        if self.memory.max_segments_in_memory == 0 {
            return Err(
                DlNzbError::Config(
                    ConfigError::Invalid {
                        field: String::from_str("max_segments_in_memory"),
                        reason: String::from_str("Must be at least 1"),
                    },
                ),
            );
        }
        if self.usenet.pipeline_size == 0 {
            return Err(
                DlNzbError::Config(
                    ConfigError::Invalid {
                        field: String::from_str("pipeline_size"),
                        reason: String::from_str("Must be at least 1"),
                    },
                ),
            );
        }
        if self.download.dir.as_str().is_empty() {
            return Err(
                DlNzbError::Config(
                    ConfigError::InvalidPath {
                        path: self.download.dir.clone(),
                        reason: String::from_str("Download directory not specified"),
                    },
                ),
            );
        }
        Ok(())
    }

    /// Applies the values given on the command line: each one that is
    /// present replaces the configured value, the others change nothing.
    pub fn apply_overrides(&mut self, overrides: ConfigOverrides)
        ensures
            final(self).usenet.server == (match overrides.server {
                Some(v) => v,
                None => old(self).usenet.server,
            }),
            final(self).usenet.port == (match overrides.port {
                Some(v) => v,
                None => old(self).usenet.port,
            }),
            final(self).usenet.connections == (match overrides.connections {
                Some(v) => v,
                None => old(self).usenet.connections,
            }),
            final(self).usenet.ssl == (match overrides.ssl {
                Some(v) => v,
                None => old(self).usenet.ssl,
            }),
            final(self).download.dir == (match overrides.download_dir {
                Some(v) => v,
                None => old(self).download.dir,
            }),
            final(self).logging.level == (match overrides.log_level {
                Some(v) => v,
                None => old(self).logging.level,
            }),
            final(self).usenet.username == old(self).usenet.username,
            final(self).usenet.password == old(self).usenet.password,
            final(self).usenet.verify_ssl_certs == old(self).usenet.verify_ssl_certs,
            final(self).usenet.timeout == old(self).usenet.timeout,
            final(self).usenet.retry_attempts == old(self).usenet.retry_attempts,
            final(self).usenet.retry_delay == old(self).usenet.retry_delay,
            final(self).usenet.pipeline_size == old(self).usenet.pipeline_size,
            final(self).usenet.connection_wait_timeout == old(self).usenet.connection_wait_timeout,
            final(self).download.temp_dir == old(self).download.temp_dir,
            final(self).download.create_subfolders == old(self).download.create_subfolders,
            final(self).download.overwrite_existing == old(self).download.overwrite_existing,
            final(self).download.user_agent == old(self).download.user_agent,
            final(self).download.force_redownload == old(self).download.force_redownload,
            final(self).memory == old(self).memory,
            final(self).post_processing == old(self).post_processing,
            final(self).logging.file == old(self).logging.file,
            final(self).logging.format == old(self).logging.format,
    {
        let ConfigOverrides { server, port, connections, ssl, download_dir, log_level } = overrides;
        if let Some(v) = server {
            self.usenet.server = v;
        }
        if let Some(v) = port {
            self.usenet.port = v;
        }
        if let Some(v) = connections {
            self.usenet.connections = v;
        }
        if let Some(v) = ssl {
            self.usenet.ssl = v;
        }
        if let Some(v) = download_dir {
            self.download.dir = v;
        }
        if let Some(v) = log_level {
            self.logging.level = v;
        }
    }
}

/// Collects where a configuration comes from and what was read there, and
/// makes the final configuration of it.
#[derive(Debug)]
pub struct ConfigBuilder {
    /// The values read so far; the defaults before anything was read.
    pub config: Config,
    /// The configuration files to read, in the order given.
    pub files: Vec<String>,
    /// The prefixes of the environment variables to read.
    pub env_prefixes: Vec<String>,
    /// The home directory, where it is known.
    pub home: Option<String>,
}

impl ConfigBuilder {
    /// A builder with the defaults, no source and no home directory.
    pub fn new() -> (b: Self)
        ensures
            b.files@.len() == 0,
            b.env_prefixes@.len() == 0,
            b.home.is_none(),
            b.config.is_default(),
    {
        ConfigBuilder {
            config: Config::default(),
            files: Vec::new(),
            env_prefixes: Vec::new(),
            home: None,
        }
    }

    /// Names one more configuration file to read.
    pub fn add_file(self, path: &str) -> (b: Self)
        ensures
            b.files@.len() == self.files@.len() + 1,
            b.files@.last()@ == path@,
            b.files@.drop_last() == self.files@,
            b.env_prefixes == self.env_prefixes,
            b.config == self.config,
            b.home == self.home,
    {
        let ConfigBuilder { config, files, env_prefixes, home } = self;
        let mut files = files;
        let ghost before = files@;
        files.push(String::from_str(path));
        assert(files@.drop_last() =~= before);
        ConfigBuilder { config, files, env_prefixes, home }
    }

    /// Names one more prefix of environment variables to read.
    pub fn add_env_prefix(self, prefix: &str) -> (b: Self)
        ensures
            b.env_prefixes@.len() == self.env_prefixes@.len() + 1,
            b.env_prefixes@.last()@ == prefix@,
            b.env_prefixes@.drop_last() == self.env_prefixes@,
            b.files == self.files,
            b.config == self.config,
            b.home == self.home,
    {
        let ConfigBuilder { config, files, env_prefixes, home } = self;
        let mut env_prefixes = env_prefixes;
        let ghost before = env_prefixes@;
        env_prefixes.push(String::from_str(prefix));
        assert(env_prefixes@.drop_last() =~= before);
        ConfigBuilder { config, files, env_prefixes, home }
    }

    /// Takes the values that were read from the sources named so far.
    pub fn with_values(self, config: Config) -> (b: Self)
        ensures
            b.config == config,
            b.files == self.files,
            b.env_prefixes == self.env_prefixes,
            b.home == self.home,
    {
        let ConfigBuilder { config: _, files, env_prefixes, home } = self;
        ConfigBuilder { config, files, env_prefixes, home }
    }

    /// Takes the home directory, for paths that begin with `~`.
    pub fn with_home(self, home: Option<String>) -> (b: Self)
        ensures
            b.home == home,
            b.config == self.config,
            b.files == self.files,
            b.env_prefixes == self.env_prefixes,
    {
        let ConfigBuilder { config, files, env_prefixes, home: _ } = self;
        ConfigBuilder { config, files, env_prefixes, home }
    }

    /// The configuration that [`ConfigBuilder::build`] checks: the values
    /// read, with the home directory put into the paths.
    pub open spec fn expands_to(&self, c: Config) -> bool {
        &&& c.usenet == self.config.usenet
        &&& c.memory == self.config.memory
        &&& c.post_processing == self.config.post_processing
        &&& c.download.dir@ == expanded(self.config.download.dir@, text_of(self.home))
        &&& c.download.temp_dir@ == expanded(self.config.download.temp_dir@, text_of(self.home))
        &&& c.download.create_subfolders == self.config.download.create_subfolders
        &&& c.download.overwrite_existing == self.config.download.overwrite_existing
        &&& c.download.user_agent == self.config.download.user_agent
        &&& c.download.force_redownload == self.config.download.force_redownload
        &&& c.logging.level == self.config.logging.level
        &&& c.logging.format == self.config.logging.format
        &&& text_of(c.logging.file) == match self.config.logging.file {
            Some(f) => Some(expanded(f@, text_of(self.home))),
            None => None,
        }
    }

    /// Puts the home directory into the paths and checks the result: the
    /// configuration where it is valid, else the first thing wrong with it.
    pub fn build(self) -> (r: Result<Config, DlNzbError>)
        ensures
            match r {
                Ok(c) => self.expands_to(c) && c.valid(),
                Err(e) => exists|c: Config|
                    self.expands_to(c) && !c.valid() && c.reports(c.first_issue().unwrap(), e),
            },
    {
        let ConfigBuilder { config, files: _, env_prefixes: _, home } = self;
        let Config { usenet, download, memory, post_processing, logging } = config;
        let dir: String = expand_tilde(download.dir.as_str(), &home);
        let temp_dir: String = expand_tilde(download.temp_dir.as_str(), &home);
        let file: Option<String> = match &logging.file {
            Some(f) => Some(expand_tilde(f.as_str(), &home)),
            None => None,
        };
        let built = Config {
            usenet,
            download: DownloadConfig {
                dir,
                temp_dir,
                create_subfolders: download.create_subfolders,
                overwrite_existing: download.overwrite_existing,
                user_agent: download.user_agent,
                force_redownload: download.force_redownload,
            },
            memory,
            post_processing,
            logging: LoggingConfig { level: logging.level, file, format: logging.format },
        };
        assert(self.expands_to(built));
        match built.validate() {
            Ok(()) => Ok(built),
            Err(e) => Err(e),
        }
    }
}

} // verus!
