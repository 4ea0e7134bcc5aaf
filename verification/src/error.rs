//! The errors of the downloader, by area, and the text of each.
//!
//! Paths and the causes that the operating system reports are held as text.

use crate::text::{decimal, decimal_text, join2, join3, join4};
use vstd::prelude::*;
use vstd::string::*;

verus! {

/// Errors of reading a manifest.
#[derive(Debug)]
pub enum NzbError {
    ParseError(String),
    InvalidFile { path: String, reason: String },
    NotFound(String),
    EmptyNzb,
    MissingField(String),
    InvalidSegment(String),
}

/// Errors of the NNTP protocol and its connections.
#[derive(Debug)]
pub enum NntpError {
    ConnectionFailed { server: String, port: u16, source: String },
    Timeout { seconds: u64 },
    TlsError(String),
    AuthFailed(String),
    ProtocolError(String),
    ServerError { code: u16, message: String },
    ArticleNotFound { message_id: String },
    GroupNotFound { group: String },
    YencDecode(String),
    UnhealthyConnection,
}

/// Errors of the configuration.
#[derive(Debug)]
pub enum ConfigError {
    NotFound(String),
    ParseError(String),
    Invalid { field: String, reason: String },
    NoServer,
    NoCredentials,
    InvalidConnections { count: u16 },
    InvalidPath { path: String, reason: String },
    EnvVar(String),
}

/// Errors of a download.
#[derive(Debug)]
pub enum DownloadError {
    SegmentFailed { number: u32, total: u32, reason: String },
    FileFailed { filename: String, reason: String },
    InsufficientSegments { available: usize, required: usize },
    PoolExhausted,
    Cancelled,
    WriteError { path: String, source: String },
}

/// Errors of verification, repair and extraction.
#[derive(Debug)]
pub enum PostProcessingError {
    Par2Failed(String),
    Par2NotFound,
    RarFailed { archive: String, reason: String },
    NoRarArchives,
    CorruptedArchive(String),
    ToolNotFound { tool: String },
}

/// Any error of the downloader.
#[derive(Debug)]
pub enum DlNzbError {
    Nzb(NzbError),
    Nntp(NntpError),
    Config(ConfigError),
    Download(DownloadError),
    PostProcessing(PostProcessingError),
    Io(String),
    NativeTls(String),
}

impl NzbError {
    /// The text of the error.
    pub open spec fn message(&self) -> Seq<char> {
        match self {
            NzbError::ParseError(m) => "Failed to parse NZB file: "@ + m@,
            NzbError::InvalidFile { path, reason } => "Invalid NZB file at "@ + path@ + ": "@
                + reason@,
            NzbError::NotFound(p) => "NZB file not found: "@ + p@,
            NzbError::EmptyNzb => "No files found in NZB"@,
            NzbError::MissingField(f) => "Missing required field: "@ + f@,
            NzbError::InvalidSegment(s) => "Invalid segment: "@ + s@,
        }
    }

    /// The text of the error.
    pub fn to_string(&self) -> (s: String)
        ensures
            s@ == self.message(),
    {
        match self {
            NzbError::ParseError(m) => join2("Failed to parse NZB file: ", m.as_str()),
            NzbError::InvalidFile { path, reason } => join4(
                "Invalid NZB file at ",
                path.as_str(),
                ": ",
                reason.as_str(),
            ),
            NzbError::NotFound(p) => join2("NZB file not found: ", p.as_str()),
            NzbError::EmptyNzb => String::from_str("No files found in NZB"),
            NzbError::MissingField(f) => join2("Missing required field: ", f.as_str()),
            NzbError::InvalidSegment(s) => join2("Invalid segment: ", s.as_str()),
        }
    }
}

impl NntpError {
    /// The text of the error.
    pub open spec fn message(&self) -> Seq<char> {
        match self {
            NntpError::ConnectionFailed { server, port, source } => "Connection failed to "@
                + server@ + ":"@ + decimal_text(*port as nat) + ": "@ + source@,
            NntpError::Timeout { seconds } => "Connection timeout after "@ + decimal_text(
                *seconds as nat,
            ) + "s"@,
            NntpError::TlsError(m) => "TLS handshake failed: "@ + m@,
            NntpError::AuthFailed(m) => "Authentication failed: "@ + m@,
            NntpError::ProtocolError(m) => "Protocol error: "@ + m@,
            NntpError::ServerError { code, message } => "Server response error: "@ + decimal_text(
                *code as nat,
            ) + " "@ + message@,
            NntpError::ArticleNotFound { message_id } => "Article not found: "@ + message_id@,
            NntpError::GroupNotFound { group } => "Group not found: "@ + group@,
            NntpError::YencDecode(m) => "YEnc decode error: "@ + m@,
            NntpError::UnhealthyConnection => "Connection unhealthy"@,
        }
    }

    /// The text of the error.
    pub fn to_string(&self) -> (s: String)
        ensures
            s@ == self.message(),
    {
        match self {
            NntpError::ConnectionFailed { server, port, source } => {
                let number: String = decimal(*port as u64);
                let mut s: String = join4(
                    "Connection failed to ",
                    server.as_str(),
                    ":",
                    number.as_str(),
                );
                s.append(": ");
                s.append(source.as_str());
                s
            },
            NntpError::Timeout { seconds } => {
                let number: String = decimal(*seconds);
                join3("Connection timeout after ", number.as_str(), "s")
            },
            NntpError::TlsError(m) => join2("TLS handshake failed: ", m.as_str()),
            NntpError::AuthFailed(m) => join2("Authentication failed: ", m.as_str()),
            NntpError::ProtocolError(m) => join2("Protocol error: ", m.as_str()),
            NntpError::ServerError { code, message } => {
                let number: String = decimal(*code as u64);
                join4("Server response error: ", number.as_str(), " ", message.as_str())
            },
            NntpError::ArticleNotFound { message_id } => join2(
                "Article not found: ",
                message_id.as_str(),
            ),
            NntpError::GroupNotFound { group } => join2("Group not found: ", group.as_str()),
            NntpError::YencDecode(m) => join2("YEnc decode error: ", m.as_str()),
            NntpError::UnhealthyConnection => String::from_str("Connection unhealthy"),
        }
    }
}

impl ConfigError {
    /// The text of the error.
    pub open spec fn message(&self) -> Seq<char> {
        match self {
            ConfigError::NotFound(p) => "Configuration file not found: "@ + p@,
            ConfigError::ParseError(m) => "Failed to parse configuration: "@ + m@,
            ConfigError::Invalid { field, reason } => "Invalid configuration: "@ + field@ + ": "@
                + reason@,
            ConfigError::NoServer => "Server not configured"@,
            ConfigError::NoCredentials => "Credentials not configured"@,
            ConfigError::InvalidConnections { count } => "Invalid connection count: "@
                + decimal_text(*count as nat) + " (must be 1-100)"@,
            ConfigError::InvalidPath { path, reason } => "Invalid path: "@ + path@ + ": "@
                + reason@,
            ConfigError::EnvVar(m) => "Environment variable error: "@ + m@,
        }
    }

    /// The text of the error.
    pub fn to_string(&self) -> (s: String)
        ensures
            s@ == self.message(),
    {
        match self {
            ConfigError::NotFound(p) => join2("Configuration file not found: ", p.as_str()),
            ConfigError::ParseError(m) => join2("Failed to parse configuration: ", m.as_str()),
            ConfigError::Invalid { field, reason } => join4(
                "Invalid configuration: ",
                field.as_str(),
                ": ",
                reason.as_str(),
            ),
            ConfigError::NoServer => String::from_str("Server not configured"),
            ConfigError::NoCredentials => String::from_str("Credentials not configured"),
            ConfigError::InvalidConnections { count } => {
                let number: String = decimal(*count as u64);
                join3("Invalid connection count: ", number.as_str(), " (must be 1-100)")
            },
            ConfigError::InvalidPath { path, reason } => join4(
                "Invalid path: ",
                path.as_str(),
                ": ",
                reason.as_str(),
            ),
            ConfigError::EnvVar(m) => join2("Environment variable error: ", m.as_str()),
        }
    }
}

impl DownloadError {
    /// The text of the error.
    pub open spec fn message(&self) -> Seq<char> {
        match self {
            DownloadError::SegmentFailed { number, total, reason } => "Failed to download segment "@
                + decimal_text(*number as nat) + " of "@ + decimal_text(*total as nat) + ": "@
                + reason@,
            DownloadError::FileFailed { filename, reason } => "Failed to download file "@
                + filename@ + ": "@ + reason@,
            DownloadError::InsufficientSegments { available, required } =>
                "Insufficient segments: "@ + decimal_text(*available as nat) + "/"@ + decimal_text(
                *required as nat,
            ) + " available"@,
            DownloadError::PoolExhausted => "Connection pool exhausted"@,
            DownloadError::Cancelled => "Download cancelled"@,
            DownloadError::WriteError { path, source } => "Write error for "@ + path@ + ": "@
                + source@,
        }
    }

    /// The text of the error.
    pub fn to_string(&self) -> (s: String)
        ensures
            s@ == self.message(),
    {
        match self {
            DownloadError::SegmentFailed { number, total, reason } => {
                let n: String = decimal(*number as u64);
                let t: String = decimal(*total as u64);
                let mut s: String = join4(
                    "Failed to download segment ",
                    n.as_str(),
                    " of ",
                    t.as_str(),
                );
                s.append(": ");
                s.append(reason.as_str());
                s
            },
            DownloadError::FileFailed { filename, reason } => join4(
                "Failed to download file ",
                filename.as_str(),
                ": ",
                reason.as_str(),
            ),
            DownloadError::InsufficientSegments { available, required } => {
                let a: String = decimal(*available as u64);
                let r: String = decimal(*required as u64);
                let mut s: String = join4("Insufficient segments: ", a.as_str(), "/", r.as_str());
                s.append(" available");
                s
            },
            DownloadError::PoolExhausted => String::from_str("Connection pool exhausted"),
            DownloadError::Cancelled => String::from_str("Download cancelled"),
            DownloadError::WriteError { path, source } => join4(
                "Write error for ",
                path.as_str(),
                ": ",
                source.as_str(),
            ),
        }
    }
}

impl PostProcessingError {
    /// The text of the error.
    pub open spec fn message(&self) -> Seq<char> {
        match self {
            PostProcessingError::Par2Failed(m) => "PAR2 repair failed: "@ + m@,
            PostProcessingError::Par2NotFound => "PAR2 file not found"@,
            PostProcessingError::RarFailed { archive, reason } => "RAR extraction failed for "@
                + archive@ + ": "@ + reason@,
            PostProcessingError::NoRarArchives => "No RAR archives found"@,
            PostProcessingError::CorruptedArchive(p) => "Archive corrupted: "@ + p@,
            PostProcessingError::ToolNotFound { tool } => "Extraction tool not found: "@ + tool@,
        }
    }

    /// The text of the error.
    pub fn to_string(&self) -> (s: String)
        ensures
            s@ == self.message(),
    {
        match self {
            PostProcessingError::Par2Failed(m) => join2("PAR2 repair failed: ", m.as_str()),
            PostProcessingError::Par2NotFound => String::from_str("PAR2 file not found"),
            PostProcessingError::RarFailed { archive, reason } => join4(
                "RAR extraction failed for ",
                archive.as_str(),
                ": ",
                reason.as_str(),
            ),
            PostProcessingError::NoRarArchives => String::from_str("No RAR archives found"),
            PostProcessingError::CorruptedArchive(p) => join2("Archive corrupted: ", p.as_str()),
            PostProcessingError::ToolNotFound { tool } => join2(
                "Extraction tool not found: ",
                tool.as_str(),
            ),
        }
    }
}

impl DlNzbError {
    /// The text of the error: its area, then the text of the cause.
    pub open spec fn message(&self) -> Seq<char> {
        match self {
            DlNzbError::Nzb(e) => "NZB error: "@ + e.message(),
            DlNzbError::Nntp(e) => "NNTP error: "@ + e.message(),
            DlNzbError::Config(e) => "Configuration error: "@ + e.message(),
            DlNzbError::Download(e) => "Download error: "@ + e.message(),
            DlNzbError::PostProcessing(e) => "Post-processing error: "@ + e.message(),
            DlNzbError::Io(m) => "I/O error: "@ + m@,
            DlNzbError::NativeTls(m) => "TLS error: "@ + m@,
        }
    }

    /// The text of the error.
    pub fn to_string(&self) -> (s: String)
        ensures
            s@ == self.message(),
    {
        match self {
            DlNzbError::Nzb(e) => {
                let inner: String = e.to_string();
                join2("NZB error: ", inner.as_str())
            },
            DlNzbError::Nntp(e) => {
                let inner: String = e.to_string();
                join2("NNTP error: ", inner.as_str())
            },
            DlNzbError::Config(e) => {
                let inner: String = e.to_string();
                join2("Configuration error: ", inner.as_str())
            },
            DlNzbError::Download(e) => {
                let inner: String = e.to_string();
                join2("Download error: ", inner.as_str())
            },
            DlNzbError::PostProcessing(e) => {
                let inner: String = e.to_string();
                join2("Post-processing error: ", inner.as_str())
            },
            DlNzbError::Io(m) => join2("I/O error: ", m.as_str()),
            DlNzbError::NativeTls(m) => join2("TLS error: ", m.as_str()),
        }
    }
}

impl From<NzbError> for DlNzbError {
    fn from(e: NzbError) -> (r: DlNzbError) {
        DlNzbError::Nzb(e)
    }
}

impl vstd::std_specs::convert::FromSpecImpl<NzbError> for DlNzbError {
    open spec fn obeys_from_spec() -> bool {
        true
    }

    open spec fn from_spec(e: NzbError) -> DlNzbError {
        DlNzbError::Nzb(e)
    }
}

impl From<NntpError> for DlNzbError {
    fn from(e: NntpError) -> (r: DlNzbError) {
        DlNzbError::Nntp(e)
    }
}

impl vstd::std_specs::convert::FromSpecImpl<NntpError> for DlNzbError {
    open spec fn obeys_from_spec() -> bool {
        true
    }

    open spec fn from_spec(e: NntpError) -> DlNzbError {
        DlNzbError::Nntp(e)
    }
}

impl From<ConfigError> for DlNzbError {
    fn from(e: ConfigError) -> (r: DlNzbError) {
        DlNzbError::Config(e)
    }
}

impl vstd::std_specs::convert::FromSpecImpl<ConfigError> for DlNzbError {
    open spec fn obeys_from_spec() -> bool {
        true
    }

    open spec fn from_spec(e: ConfigError) -> DlNzbError {
        DlNzbError::Config(e)
    }
}

impl From<DownloadError> for DlNzbError {
    fn from(e: DownloadError) -> (r: DlNzbError) {
        DlNzbError::Download(e)
    }
}

impl vstd::std_specs::convert::FromSpecImpl<DownloadError> for DlNzbError {
    open spec fn obeys_from_spec() -> bool {
        true
    }

    open spec fn from_spec(e: DownloadError) -> DlNzbError {
        DlNzbError::Download(e)
    }
}

impl From<PostProcessingError> for DlNzbError {
    fn from(e: PostProcessingError) -> (r: DlNzbError) {
        DlNzbError::PostProcessing(e)
    }
}

impl vstd::std_specs::convert::FromSpecImpl<PostProcessingError> for DlNzbError {
    open spec fn obeys_from_spec() -> bool {
        true
    }

    open spec fn from_spec(e: PostProcessingError) -> DlNzbError {
        DlNzbError::PostProcessing(e)
    }
}

/// Raises the error of a result to [`DlNzbError`], keeping a success as it
/// is. The message says what was being done; it does not change the result.
pub trait ErrorContext<T> {
    /// The result that [`ErrorContext::context`] gives.
    spec fn raised(self) -> Result<T, DlNzbError>;

    fn context(self, msg: &str) -> (r: Result<T, DlNzbError>)
        ensures
            r == self.raised(),
    ;
}

impl<T> ErrorContext<T> for Result<T, NzbError> {
    open spec fn raised(self) -> Result<T, DlNzbError> {
        match self {
            Ok(v) => Ok(v),
            Err(e) => Err(DlNzbError::Nzb(e)),
        }
    }

    fn context(self, msg: &str) -> (r: Result<T, DlNzbError>) {
        match self {
            Ok(v) => Ok(v),
            Err(e) => Err(DlNzbError::from(e)),
        }
    }
}

impl<T> ErrorContext<T> for Result<T, NntpError> {
    open spec fn raised(self) -> Result<T, DlNzbError> {
        match self {
            Ok(v) => Ok(v),
            Err(e) => Err(DlNzbError::Nntp(e)),
        }
    }

    fn context(self, msg: &str) -> (r: Result<T, DlNzbError>) {
        match self {
            Ok(v) => Ok(v),
            Err(e) => Err(DlNzbError::from(e)),
        }
    }
}

impl<T> ErrorContext<T> for Result<T, ConfigError> {
    open spec fn raised(self) -> Result<T, DlNzbError> {
        match self {
            Ok(v) => Ok(v),
            Err(e) => Err(DlNzbError::Config(e)),
        }
    }

    fn context(self, msg: &str) -> (r: Result<T, DlNzbError>) {
        match self {
            Ok(v) => Ok(v),
            Err(e) => Err(DlNzbError::from(e)),
        }
    }
}

impl<T> ErrorContext<T> for Result<T, DownloadError> {
    open spec fn raised(self) -> Result<T, DlNzbError> {
        match self {
            Ok(v) => Ok(v),
            Err(e) => Err(DlNzbError::Download(e)),
        }
    }

    fn context(self, msg: &str) -> (r: Result<T, DlNzbError>) {
        match self {
            Ok(v) => Ok(v),
            Err(e) => Err(DlNzbError::from(e)),
        }
    }
}

impl<T> ErrorContext<T> for Result<T, PostProcessingError> {
    open spec fn raised(self) -> Result<T, DlNzbError> {
        match self {
            Ok(v) => Ok(v),
            Err(e) => Err(DlNzbError::PostProcessing(e)),
        }
    }

    fn context(self, msg: &str) -> (r: Result<T, DlNzbError>) {
        match self {
            Ok(v) => Ok(v),
            Err(e) => Err(DlNzbError::from(e)),
        }
    }
}

} // verus!
