//! The command line as plain values, and what follows from it.
//!
//! Parsing the arguments is the caller's part; the rules that apply to the
//! parsed values are here.

use crate::config::{Config, ConfigOverrides};
use crate::text::{join_path, joined_path};
use crate::wrappers::{file_stem_of, path_file_stem};
use vstd::prelude::*;
use vstd::string::*;

verus! {

/// What to say when no manifest was named.
pub const NO_FILES: &'static str = "No NZB files specified. Use 'dl-nzb --help' for usage information.";

/// The subcommands.
#[derive(Debug, Clone, Copy)]
pub enum Commands {
    /// Test the connection to the server.
    Test,
    /// Show the configuration.
    Config,
    /// Show the version.
    Version,
}

/// The parsed command line.
#[derive(Debug)]
pub struct Cli {
    /// The manifests to download.
    pub files: Vec<String>,
    /// The output directory.
    pub output: Option<String>,
    /// List the contents without downloading.
    pub list: bool,
    /// Errors only.
    pub quiet: bool,
    /// How many times `-v` was given.
    pub verbose: u8,
    pub json: bool,
    /// The path of the configuration file.
    pub config: Option<String>,
    pub force: bool,
    pub command: Option<Commands>,
    // The flags below are kept for old scripts.
    pub connections: Option<u16>,
    pub output_dir: Option<String>,
    pub no_directories: bool,
    pub keep_partial: bool,
    pub no_par2: bool,
    pub no_extract_rar: bool,
    pub delete_rar_after_extract: bool,
    pub delete_par2: bool,
    pub print_names: bool,
    pub server: Option<String>,
    pub port: Option<u16>,
    pub ssl: Option<bool>,
    pub username: Option<String>,
    pub password: Option<String>,
    pub memory_limit: Option<usize>,
    pub buffer_size: Option<usize>,
    pub max_concurrent_files: Option<usize>,
    pub log_level: Option<String>,
    pub log_file: Option<String>,
}

impl Cli {
    /// The log level in effect: the one given, else by the flags: `error`
    /// when quiet and not verbose, `info` by default, `debug` for one `-v`,
    /// `trace` for more.
    pub open spec fn log_level_text(&self) -> Seq<char> {
        match self.log_level {
            Some(level) => level@,
            None => if self.verbose == 0 {
                if self.quiet {
                    "error"@
                } else {
                    "info"@
                }
            } else if self.verbose == 1 {
                "debug"@
            } else {
                "trace"@
            },
        }
    }

    /// The log level in effect.
    pub fn get_log_level(&self) -> (level: &str)
        ensures
            level@ == self.log_level_text(),
    {
        match &self.log_level {
            Some(level) => level.as_str(),
            None => {
                if self.verbose == 0 {
                    if self.quiet {
                        "error"
                    } else {
                        "info"
                    }
                } else if self.verbose == 1 {
                    "debug"
                } else {
                    "trace"
                }
            },
        }
    }

    /// The values that win over the configuration: server, port, pool size
    /// and TLS as given, the output directory as download directory, and the
    /// log level.
    pub fn get_config_overrides(&self) -> (overrides: ConfigOverrides)
        ensures
            overrides.server == self.server,
            overrides.port == self.port,
            overrides.connections == self.connections,
            overrides.ssl == self.ssl,
            overrides.download_dir == self.output,
            overrides.log_level == self.log_level,
    {
        ConfigOverrides {
            server: self.server.clone(),
            port: self.port,
            connections: self.connections,
            ssl: self.ssl,
            download_dir: self.output.clone(),
            log_level: self.log_level.clone(),
        }
    }

    /// Whether any of the flags kept for old scripts is in use.
    pub open spec fn uses_deprecated(&self) -> bool {
        self.connections.is_some() || self.output_dir.is_some() || self.no_directories
            || self.keep_partial || self.no_par2 || self.no_extract_rar
            || self.delete_rar_after_extract || self.delete_par2 || self.print_names
            || self.server.is_some() || self.port.is_some() || self.ssl.is_some()
            || self.username.is_some() || self.password.is_some() || self.memory_limit.is_some()
            || self.buffer_size.is_some() || self.max_concurrent_files.is_some()
    }

    /// Whether any of the flags kept for old scripts is in use.
    pub fn has_deprecated_flags(&self) -> (used: bool)
        ensures
            used == self.uses_deprecated(),
    {
        self.connections.is_some() || self.output_dir.is_some() || self.no_directories
            || self.keep_partial || self.no_par2 || self.no_extract_rar
            || self.delete_rar_after_extract || self.delete_par2 || self.print_names
            || self.server.is_some() || self.port.is_some() || self.ssl.is_some()
            || self.username.is_some() || self.password.is_some() || self.memory_limit.is_some()
            || self.buffer_size.is_some() || self.max_concurrent_files.is_some()
    }

    /// Whether the password is to be read from standard input: it was given
    /// as `-`.
    pub fn wants_password_from_stdin(&self) -> (wanted: bool)
        ensures
            wanted == (self.password.is_some() && self.password.unwrap()@ == "-"@),
    {
        match &self.password {
            Some(p) => {
                let dash: String = String::from_str("-");
                *p == dash
            },
            None => false,
        }
    }

    /// Settles the parsed values: the old `--output-dir` stands in for a
    /// missing `--output`, a password read from standard input replaces the
    /// `-` that asked for it, and `--quiet` silences `-v`.
    pub fn normalize(&mut self, stdin_password: Option<String>)
        ensures
            final(self).output == (if old(self).output.is_none() {
                old(self).output_dir
            } else {
                old(self).output
            }),
            final(self).password == (if old(self).password.is_some() && old(
                self,
            ).password.unwrap()@ == "-"@ && stdin_password.is_some() {
                stdin_password
            } else {
                old(self).password
            }),
            final(self).verbose == (if old(self).quiet {
                0u8
            } else {
                old(self).verbose
            }),
            final(self).quiet == old(self).quiet,
            final(self).output_dir == old(self).output_dir,
            final(self).log_level == old(self).log_level,
            final(self).files == old(self).files,
            final(self).server == old(self).server,
            final(self).port == old(self).port,
            final(self).connections == old(self).connections,
            final(self).ssl == old(self).ssl,
            final(self).username == old(self).username,
            final(self).list == old(self).list,
            final(self).json == old(self).json,
            final(self).config == old(self).config,
            final(self).force == old(self).force,
            final(self).command == old(self).command,
            final(self).no_directories == old(self).no_directories,
            final(self).keep_partial == old(self).keep_partial,
            final(self).no_par2 == old(self).no_par2,
            final(self).no_extract_rar == old(self).no_extract_rar,
            final(self).delete_rar_after_extract == old(self).delete_rar_after_extract,
            final(self).delete_par2 == old(self).delete_par2,
            final(self).print_names == old(self).print_names,
            final(self).memory_limit == old(self).memory_limit,
            final(self).buffer_size == old(self).buffer_size,
            final(self).max_concurrent_files == old(self).max_concurrent_files,
            final(self).log_file == old(self).log_file,
    {
        if self.output.is_none() && self.output_dir.is_some() {
            self.output = self.output_dir.clone();
        }
        if self.wants_password_from_stdin() {
            if stdin_password.is_some() {
                self.password = stdin_password;
            }
        }
        if self.quiet {
            self.verbose = 0;
        }
    }
}

/// The number of segments held in memory for a limit of `megabytes`: the
/// limit in bytes over 100 000, the rough size of a segment. Held at the
/// largest value where the limit in bytes cannot be told.
pub open spec fn segments_for_limit(megabytes: usize) -> usize {
    if megabytes * 1048576 <= usize::MAX {
        (megabytes * 1048576 / 100000) as usize
    } else {
        (usize::MAX / 100000) as usize
    }
}

/// The size of the I/O buffer for `kilobytes`, held at the largest value
/// where it cannot be told.
pub open spec fn buffer_for(kilobytes: usize) -> usize {
    if kilobytes * 1024 <= usize::MAX {
        (kilobytes * 1024) as usize
    } else {
        usize::MAX
    }
}

/// The number of segments held in memory for a limit of `megabytes`.
pub fn segments_in_memory(megabytes: usize) -> (segments: usize)
    ensures
        segments == segments_for_limit(megabytes),
{
    match megabytes.checked_mul(1048576) {
        Some(bytes) => bytes / 100000,
        None => usize::MAX / 100000,
    }
}

/// The size of the I/O buffer for `kilobytes`.
pub fn buffer_bytes(kilobytes: usize) -> (bytes: usize)
    ensures
        bytes == buffer_for(kilobytes),
{
    match kilobytes.checked_mul(1024) {
        Some(bytes) => bytes,
        None => usize::MAX,
    }
}

impl Cli {
    /// Puts the user name and the password into the configuration, where
    /// they were given.
    pub fn apply_credentials(&self, config: &mut Config)
        ensures
            final(config).usenet.username == (match self.username {
                Some(u) => u,
                None => old(config).usenet.username,
            }),
            final(config).usenet.password == (match self.password {
                Some(p) => p,
                None => old(config).usenet.password,
            }),
            final(config).usenet.server == old(config).usenet.server,
            final(config).usenet.port == old(config).usenet.port,
            final(config).usenet.connections == old(config).usenet.connections,
            final(config).usenet.ssl == old(config).usenet.ssl,
            final(config).usenet.verify_ssl_certs == old(config).usenet.verify_ssl_certs,
            final(config).usenet.timeout == old(config).usenet.timeout,
            final(config).usenet.retry_attempts == old(config).usenet.retry_attempts,
            final(config).usenet.retry_delay == old(config).usenet.retry_delay,
            final(config).usenet.pipeline_size == old(config).usenet.pipeline_size,
            final(config).usenet.connection_wait_timeout == old(
                config,
            ).usenet.connection_wait_timeout,
            final(config).download == old(config).download,
            final(config).memory == old(config).memory,
            final(config).post_processing == old(config).post_processing,
            final(config).logging == old(config).logging,
    {
        if let Some(u) = &self.username {
            config.usenet.username = u.clone();
        }
        if let Some(p) = &self.password {
            config.usenet.password = p.clone();
        }
    }

    /// Puts the flags of a download into the configuration: each switch that
    /// is set, and each value that is given, replaces what was configured.
    pub fn apply_to(&self, config: &mut Config)
        ensures
            final(config).download.create_subfolders == (old(config).download.create_subfolders
                && !self.no_directories),
            final(config).post_processing.auto_par2_repair == (old(
                config,
            ).post_processing.auto_par2_repair && !self.no_par2),
            final(config).post_processing.auto_extract_rar == (old(
                config,
            ).post_processing.auto_extract_rar && !self.no_extract_rar),
            final(config).post_processing.delete_rar_after_extract == (old(
                config,
            ).post_processing.delete_rar_after_extract || self.delete_rar_after_extract),
            final(config).post_processing.delete_par2_after_repair == (old(
                config,
            ).post_processing.delete_par2_after_repair || self.delete_par2),
            final(config).post_processing.auto_extract_zip == old(
                config,
            ).post_processing.auto_extract_zip,
            final(config).memory.max_segments_in_memory == (match self.memory_limit {
                Some(mb) => segments_for_limit(mb),
                None => old(config).memory.max_segments_in_memory,
            }),
            final(config).memory.io_buffer_size == (match self.buffer_size {
                Some(kb) => buffer_for(kb),
                None => old(config).memory.io_buffer_size,
            }),
            final(config).memory.max_concurrent_files == (match self.max_concurrent_files {
                Some(n) => n,
                None => old(config).memory.max_concurrent_files,
            }),
            final(config).memory.stream_to_disk == old(config).memory.stream_to_disk,
            final(config).memory.segment_retry_buffer == old(config).memory.segment_retry_buffer,
            final(config).usenet.username == (match self.username {
                Some(u) => u,
                None => old(config).usenet.username,
            }),
            final(config).usenet.password == (match self.password {
                Some(p) => p,
                None => old(config).usenet.password,
            }),
            final(config).usenet.server == old(config).usenet.server,
            final(config).usenet.port == old(config).usenet.port,
            final(config).usenet.connections == old(config).usenet.connections,
            final(config).usenet.ssl == old(config).usenet.ssl,
            final(config).usenet.pipeline_size == old(config).usenet.pipeline_size,
            final(config).usenet.verify_ssl_certs == old(config).usenet.verify_ssl_certs,
            final(config).usenet.timeout == old(config).usenet.timeout,
            final(config).usenet.retry_attempts == old(config).usenet.retry_attempts,
            final(config).usenet.retry_delay == old(config).usenet.retry_delay,
            final(config).usenet.connection_wait_timeout == old(
                config,
            ).usenet.connection_wait_timeout,
            final(config).download.dir == old(config).download.dir,
            final(config).download.temp_dir == old(config).download.temp_dir,
            final(config).download.overwrite_existing == old(config).download.overwrite_existing,
            final(config).download.user_agent == old(config).download.user_agent,
            final(config).download.force_redownload == old(config).download.force_redownload,
            final(config).logging == old(config).logging,
    {
        config.download.create_subfolders = config.download.create_subfolders
            && !self.no_directories;
        config.post_processing.auto_par2_repair = config.post_processing.auto_par2_repair
            && !self.no_par2;
        config.post_processing.auto_extract_rar = config.post_processing.auto_extract_rar
            && !self.no_extract_rar;
        config.post_processing.delete_rar_after_extract =
            config.post_processing.delete_rar_after_extract || self.delete_rar_after_extract;
        config.post_processing.delete_par2_after_repair =
            config.post_processing.delete_par2_after_repair || self.delete_par2;
        config.memory.max_segments_in_memory = match self.memory_limit {
            Some(mb) => segments_in_memory(mb),
            None => config.memory.max_segments_in_memory,
        };
        config.memory.io_buffer_size = match self.buffer_size {
            Some(kb) => buffer_bytes(kb),
            None => config.memory.io_buffer_size,
        };
        config.memory.max_concurrent_files = match self.max_concurrent_files {
            Some(n) => n,
            None => config.memory.max_concurrent_files,
        };
        self.apply_credentials(config);
    }
}

/// The folder that a manifest is downloaded to, given its name without
/// extension: the download directory itself, or a folder in it named after
/// the manifest (`download` where the manifest has no name) where folders per
/// manifest are switched on.
pub open spec fn folder_for(dir: Seq<char>, create_subfolders: bool, stem: Option<Seq<char>>) -> Seq<
    char,
> {
    if create_subfolders {
        joined_path(
            dir,
            match stem {
                Some(name) => name,
                None => "download"@,
            },
        )
    } else {
        dir
    }
}

/// The folder that a manifest is downloaded to, given its name without
/// extension.
pub fn folder_by_stem(config: &Config, stem: &Option<String>) -> (folder: String)
    ensures
        folder@ == folder_for(
            config.download.dir@,
            config.download.create_subfolders,
            crate::config::text_of(*stem),
        ),
{
    if config.download.create_subfolders {
        match stem {
            Some(name) => join_path(config.download.dir.as_str(), name.as_str()),
            None => join_path(config.download.dir.as_str(), "download"),
        }
    } else {
        config.download.dir.clone()
    }
}

/// The folder that the manifest at `nzb_path` is downloaded to.
pub fn download_folder(config: &Config, nzb_path: &str) -> (folder: String)
    ensures
        folder@ == folder_for(
            config.download.dir@,
            config.download.create_subfolders,
            file_stem_of(nzb_path@),
        ),
{
    let stem: Option<String> = path_file_stem(nzb_path);
    folder_by_stem(config, &stem)
}

} // verus!
