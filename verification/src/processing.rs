//! What happens after a download: which archives are extracted, what a
//! repair run came to, and how its output is read.
//!
//! Running the repair and the extraction is the caller's part.

use crate::config::PostProcessingConfig;
use crate::error::{DlNzbError, PostProcessingError};
use crate::downloader::DownloadResult;
use crate::text::{
    contains_text,
    ends_with_text,
    find_text,
    occurs_at,
    parse_u64,
    parsed_u64,
    prefix_of,
    rfind_text,
    same_text,
    starts_with_text,
    str_contains,
    str_ends_with,
    str_starts_with,
    to_chars,
};
use crate::wrappers::{
    extension_of,
    file_name_of,
    lowercase,
    lowercase_of,
    path_extension,
    path_file_name,
    tokens_of,
    whitespace_tokens,
};
use vstd::prelude::*;
use vstd::string::*;

verus! {

/// What a repair attempt came to.
#[derive(Debug, Clone, Copy)]
pub enum Par2Status {
    /// There are no recovery files: extraction may go ahead.
    NoPar2Files,
    /// The files are verified or repaired: extraction may go ahead.
    Success,
    /// The files may be damaged: nothing is extracted.
    Failed,
}

/// What the repair library reports.
#[derive(Debug, Clone, Copy)]
pub enum Par2Result {
    Success,
    RepairPossible,
    RepairNotPossible,
    InvalidArguments,
    InsufficientData,
    RepairFailed,
    FileIOError,
    LogicError,
    MemoryError,
}

/// A repair of the files that one recovery file describes.
#[derive(Debug)]
pub struct Par2Repairer {
    pub par2_file: String,
}

/// The text with which a result of the repair library is reported as an
/// error, or `None` where it is no error: a success always, and a possible
/// repair when only verification was asked for.
pub open spec fn par2_failure_text(result: Par2Result, do_repair: bool) -> Option<Seq<char>> {
    match result {
        Par2Result::Success => None,
        Par2Result::RepairPossible => if do_repair {
            Some("PAR2 repair possible but not completed"@)
        } else {
            None
        },
        Par2Result::RepairNotPossible => Some(
            "PAR2 repair not possible: insufficient recovery data"@,
        ),
        Par2Result::InvalidArguments => Some("Invalid arguments"@),
        Par2Result::InsufficientData => Some("Insufficient critical data in PAR2 files"@),
        Par2Result::RepairFailed => Some("PAR2 repair failed"@),
        Par2Result::FileIOError => Some("File I/O error"@),
        Par2Result::LogicError => Some("Internal logic error"@),
        Par2Result::MemoryError => Some("Out of memory"@),
    }
}

/// The result that a status number of the repair library stands for.
pub fn par2_result_from_code(code: u32) -> (result: Option<Par2Result>)
    ensures
        result.is_some() == (code <= 8),
        result.is_some() ==> par2_result_code(result.unwrap()) == code,
{
    if code == 0 {
        Some(Par2Result::Success)
    } else if code == 1 {
        Some(Par2Result::RepairPossible)
    } else if code == 2 {
        Some(Par2Result::RepairNotPossible)
    } else if code == 3 {
        Some(Par2Result::InvalidArguments)
    } else if code == 4 {
        Some(Par2Result::InsufficientData)
    } else if code == 5 {
        Some(Par2Result::RepairFailed)
    } else if code == 6 {
        Some(Par2Result::FileIOError)
    } else if code == 7 {
        Some(Par2Result::LogicError)
    } else if code == 8 {
        Some(Par2Result::MemoryError)
    } else {
        None
    }
}

/// The status number of a result.
pub open spec fn par2_result_code(result: Par2Result) -> u32 {
    match result {
        Par2Result::Success => 0,
        Par2Result::RepairPossible => 1,
        Par2Result::RepairNotPossible => 2,
        Par2Result::InvalidArguments => 3,
        Par2Result::InsufficientData => 4,
        Par2Result::RepairFailed => 5,
        Par2Result::FileIOError => 6,
        Par2Result::LogicError => 7,
        Par2Result::MemoryError => 8,
    }
}

impl Par2Repairer {
    /// A repairer for the given recovery file.
    pub fn new(par2_file: &str) -> (r: Result<Self, DlNzbError>)
        ensures
            r matches Ok(repairer) && repairer.par2_file@ == par2_file@,
    {
        Ok(Par2Repairer { par2_file: String::from_str(par2_file) })
    }

    /// What a run of the repair library came to: `Ok` where the files are
    /// correct or repaired, else the error that says why not.
    pub fn outcome(result: Par2Result, do_repair: bool) -> (r: Result<(), DlNzbError>)
        ensures
            r.is_ok() == par2_failure_text(result, do_repair).is_none(),
            r.is_err() ==> (r.unwrap_err() matches DlNzbError::PostProcessing(
                PostProcessingError::Par2Failed(text),
            ) && text@ == par2_failure_text(result, do_repair).unwrap()),
    {
        let text: &str = match result {
            Par2Result::Success => {
                return Ok(());
            },
            Par2Result::RepairPossible => {
                if !do_repair {
                    return Ok(());
                }
                "PAR2 repair possible but not completed"
            },
            Par2Result::RepairNotPossible => "PAR2 repair not possible: insufficient recovery data",
            Par2Result::InvalidArguments => "Invalid arguments",
            Par2Result::InsufficientData => "Insufficient critical data in PAR2 files",
            Par2Result::RepairFailed => "PAR2 repair failed",
            Par2Result::FileIOError => "File I/O error",
            Par2Result::LogicError => "Internal logic error",
            Par2Result::MemoryError => "Out of memory",
        };
        Err(DlNzbError::PostProcessing(PostProcessingError::Par2Failed(String::from_str(text))))
    }
}

/// Whether a lowercase file name is that of the first volume of a RAR
/// archive, or of an archive in one volume: it names part 1, or no part at
/// all.
pub open spec fn first_rar_volume(name: Seq<char>) -> bool {
    contains_text(name, ".part001."@) || contains_text(name, ".part01."@) || ends_with_text(
        name,
        ".part01.rar"@,
    ) || ends_with_text(name, ".part001.rar"@) || !contains_text(name, ".part"@)
}

/// The extension of a path in lowercase, if it has one.
pub open spec fn lower_extension(path: Seq<char>) -> Option<Seq<char>> {
    match extension_of(path) {
        Some(e) => Some(lowercase_of(e)),
        None => None,
    }
}

/// The file name of a path in lowercase; empty where it has none.
pub open spec fn lower_file_name(path: Seq<char>) -> Seq<char> {
    match file_name_of(path) {
        Some(n) => lowercase_of(n),
        None => Seq::empty(),
    }
}

/// Whether a file with this lowercase extension and lowercase name is a RAR
/// archive to extract.
pub open spec fn rar_rule(extension: Option<Seq<char>>, name: Seq<char>) -> bool {
    extension == Some("rar"@) && first_rar_volume(name)
}

/// Whether a file with this lowercase extension and lowercase name is an
/// archive to extract under the given settings: RAR and 7z go by the RAR
/// switch, ZIP and the tar family by the ZIP switch, and of a RAR archive
/// in parts only the first.
pub open spec fn extract_rule(
    config: PostProcessingConfig,
    extension: Option<Seq<char>>,
    name: Seq<char>,
) -> bool {
    match extension {
        None => false,
        Some(e) => if e == "rar"@ {
            config.auto_extract_rar && first_rar_volume(name)
        } else if e == "zip"@ {
            config.auto_extract_zip
        } else if e == "7z"@ {
            config.auto_extract_rar
        } else if e == "tar"@ || e == "tgz"@ || e == "gz"@ || e == "bz2"@ || e == "xz"@ {
            config.auto_extract_zip
        } else {
            false
        },
    }
}

/// Whether a lowercase file name is that of a first or only RAR volume.
pub fn is_first_rar_volume(name: &str) -> (first: bool)
    ensures
        first == first_rar_volume(name@),
{
    str_contains(name, ".part001.") || str_contains(name, ".part01.") || str_ends_with(
        name,
        ".part01.rar",
    ) || str_ends_with(name, ".part001.rar") || !str_contains(name, ".part")
}

/// The extension of a path in lowercase.
pub fn lowercase_extension(path: &str) -> (extension: Option<String>)
    ensures
        extension.is_some() == lower_extension(path@).is_some(),
        extension.is_some() ==> extension.unwrap()@ == lower_extension(path@).unwrap(),
{
    match path_extension(path) {
        Some(e) => Some(lowercase(e.as_str())),
        None => None,
    }
}

/// The file name of a path in lowercase; empty where it has none.
pub fn lowercase_file_name(path: &str) -> (name: String)
    ensures
        name@ == lower_file_name(path@),
{
    match path_file_name(path) {
        Some(n) => lowercase(n.as_str()),
        None => String::new(),
    }
}

/// Decides by a lowercase extension and a lowercase file name whether a file
/// is a RAR archive to extract.
pub fn rar_archive_by(extension: &Option<String>, name: &str) -> (yes: bool)
    ensures
        yes == rar_rule(crate::config::text_of(*extension), name@),
{
    match extension {
        Some(e) => same_text(e.as_str(), "rar") && is_first_rar_volume(name),
        None => false,
    }
}

/// Carries out post-processing by the given settings.
#[derive(Debug)]
pub struct PostProcessor {
    pub config: PostProcessingConfig,
}

impl PostProcessor {
    pub fn new(config: PostProcessingConfig) -> (p: Self)
        ensures
            p.config == config,
    {
        PostProcessor { config }
    }

    /// Whether the file at `path` is a RAR archive to extract: its extension
    /// is `rar`, whatever the case, and it is the first or only volume.
    pub fn is_rar_archive(&self, path: &str) -> (yes: bool)
        ensures
            yes == rar_rule(lower_extension(path@), lower_file_name(path@)),
    {
        let extension: Option<String> = lowercase_extension(path);
        let name: String = lowercase_file_name(path);
        rar_archive_by(&extension, name.as_str())
    }

    /// Decides by a lowercase extension and a lowercase file name whether a
    /// file is an archive to extract under the settings.
    pub fn extractable_by(&self, extension: &Option<String>, name: &str) -> (yes: bool)
        ensures
            yes == extract_rule(self.config, crate::config::text_of(*extension), name@),
    {
        match extension {
            None => false,
            Some(e) => {
                let e: &str = e.as_str();
                if same_text(e, "rar") {
                    self.config.auto_extract_rar && is_first_rar_volume(name)
                } else if same_text(e, "zip") {
                    self.config.auto_extract_zip
                } else if same_text(e, "7z") {
                    self.config.auto_extract_rar
                } else if same_text(e, "tar") || same_text(e, "tgz") || same_text(e, "gz")
                    || same_text(e, "bz2") || same_text(e, "xz") {
                    self.config.auto_extract_zip
                } else {
                    false
                }
            },
        }
    }

    /// Whether the file at `path` is an archive to extract under the
    /// settings.
    pub fn is_extractable_archive(&self, path: &str) -> (yes: bool)
        ensures
            yes == extract_rule(self.config, lower_extension(path@), lower_file_name(path@)),
    {
        let extension: Option<String> = lowercase_extension(path);
        let name: String = lowercase_file_name(path);
        self.extractable_by(&extension, name.as_str())
    }

    /// Whether archives are extracted after the repair step: extraction is
    /// switched on, and either the repair succeeded, or there was nothing to
    /// repair with and no archive lost a segment.
    pub fn should_extract(&self, archives_intact: bool, status: Par2Status) -> (yes: bool)
        ensures
            yes == (self.config.auto_extract_rar && ((archives_intact && status
                is NoPar2Files) || status is Success)),
    {
        let repaired: bool = match status {
            Par2Status::Success => true,
            _ => false,
        };
        let nothing_to_repair: bool = match status {
            Par2Status::NoPar2Files => true,
            _ => false,
        };
        self.config.auto_extract_rar && ((archives_intact && nothing_to_repair) || repaired)
    }
}

/// The texts of a list of strings.
pub open spec fn texts_of(tokens: Seq<String>) -> Seq<Seq<char>> {
    Seq::new(tokens.len(), |i: int| tokens[i]@)
}

/// The number before the first word `source` that has a number before it,
/// looking from the word at `from` on.
pub open spec fn file_count_from(tokens: Seq<Seq<char>>, from: int) -> Option<u64>
    decreases tokens.len() - from,
{
    if from >= tokens.len() {
        None
    } else if from > 0 && tokens[from] == "source"@ && parsed_u64(tokens[from - 1]).is_some() {
        parsed_u64(tokens[from - 1])
    } else {
        file_count_from(tokens, from + 1)
    }
}

/// Finds the file count in the words of a line.
pub fn file_count_in(tokens: &Vec<String>) -> (count: Option<u64>)
    ensures
        count == file_count_from(texts_of(tokens@), 0),
{
    let ghost texts = texts_of(tokens@);
    let mut i: usize = 0;
    while i < tokens.len()
        invariant
            i <= tokens.len(),
            texts == texts_of(tokens@),
            file_count_from(texts, 0) == file_count_from(texts, i as int),
        decreases tokens.len() - i,
    {
        if i > 0 && same_text(tokens[i].as_str(), "source") {
            let found: Option<u64> = parse_u64(tokens[i - 1].as_str());
            if found.is_some() {
                return found;
            }
        }
        i = i + 1;
    }
    None
}

/// Reads the number of files from a line such as `Scanning 15 source files`:
/// the number before the first word `source` that has one before it.
pub fn parse_file_count(line: &str) -> (count: Option<u64>)
    ensures
        count == file_count_from(tokens_of(line@), 0),
{
    let tokens: Vec<String> = whitespace_tokens(line);
    assert(texts_of(tokens@) =~= tokens_of(line@));
    file_count_in(&tokens)
}

/// What a line of the repair tool's output says.
#[derive(Debug, Clone, Copy)]
pub enum Par2Event {
    /// Verification of the source files begins.
    Verifying,
    /// A file was found intact.
    TargetFound,
    /// A file was found damaged.
    TargetDamaged,
    /// The files need repair.
    RepairRequired,
    /// There is not enough recovery data.
    RepairNotPossible,
    /// The repair is running.
    Repairing,
    /// The repair is done.
    RepairComplete,
    /// Every file is correct.
    AllCorrect,
    /// The number of source files.
    FileCount(u64),
    /// Nothing of interest.
    Other,
}

/// What a line of the repair tool's output says, by the first phrase of
/// this list that it holds.
pub open spec fn par2_event_of(line: Seq<char>) -> Par2Event {
    if contains_text(line, "Verifying source files"@) {
        Par2Event::Verifying
    } else if contains_text(line, "Target:"@) && contains_text(line, "found"@) {
        Par2Event::TargetFound
    } else if contains_text(line, "Target:"@) && contains_text(line, "damaged"@) {
        Par2Event::TargetDamaged
    } else if contains_text(line, "Repair is required"@) {
        Par2Event::RepairRequired
    } else if contains_text(line, "Repair is not possible"@) {
        Par2Event::RepairNotPossible
    } else if contains_text(line, "Repairing:"@) {
        Par2Event::Repairing
    } else if contains_text(line, "Repair complete"@) {
        Par2Event::RepairComplete
    } else if contains_text(line, "All files are correct"@) {
        Par2Event::AllCorrect
    } else if contains_text(line, "source files"@) {
        match file_count_from(tokens_of(line), 0) {
            Some(count) => Par2Event::FileCount(count),
            None => Par2Event::Other,
        }
    } else {
        Par2Event::Other
    }
}

/// Reads one line of the repair tool's output.
pub fn classify_par2_line(line: &str) -> (event: Par2Event)
    ensures
        event == par2_event_of(line@),
{
    if str_contains(line, "Verifying source files") {
        Par2Event::Verifying
    } else if str_contains(line, "Target:") && str_contains(line, "found") {
        Par2Event::TargetFound
    } else if str_contains(line, "Target:") && str_contains(line, "damaged") {
        Par2Event::TargetDamaged
    } else if str_contains(line, "Repair is required") {
        Par2Event::RepairRequired
    } else if str_contains(line, "Repair is not possible") {
        Par2Event::RepairNotPossible
    } else if str_contains(line, "Repairing:") {
        Par2Event::Repairing
    } else if str_contains(line, "Repair complete") {
        Par2Event::RepairComplete
    } else if str_contains(line, "All files are correct") {
        Par2Event::AllCorrect
    } else if str_contains(line, "source files") {
        match parse_file_count(line) {
            Some(count) => Par2Event::FileCount(count),
            None => Par2Event::Other,
        }
    } else {
        Par2Event::Other
    }
}

/// What a run of the repair tool has shown so far.
#[derive(Debug, Clone, Copy)]
pub struct Par2Run {
    pub repair_needed: bool,
    pub repair_possible: bool,
    /// The files found intact, held at `u64::MAX`.
    pub files_verified: u64,
    /// The number of source files, once the tool has said it; 0 before.
    pub total_files: u64,
}

/// How a run of the repair tool ended.
#[derive(Debug, Clone, Copy)]
pub enum Par2Report {
    /// The tool succeeded after it had found damage.
    Repaired,
    /// The tool succeeded and found no damage.
    Verified,
    /// The tool failed and had said that repair is not possible.
    NotPossible,
    /// The tool failed for another reason.
    Failed,
}

impl Par2Run {
    /// The state before the first line: no damage seen, repair possible.
    pub fn new() -> (run: Par2Run)
        ensures
            !run.repair_needed,
            run.repair_possible,
            run.files_verified == 0,
            run.total_files == 0,
    {
        Par2Run { repair_needed: false, repair_possible: true, files_verified: 0, total_files: 0 }
    }

    /// The state after one more line.
    pub open spec fn after(self, event: Par2Event) -> Par2Run {
        match event {
            Par2Event::TargetFound => Par2Run {
                files_verified: if self.files_verified < u64::MAX {
                    (self.files_verified + 1) as u64
                } else {
                    self.files_verified
                },
                ..self
            },
            Par2Event::TargetDamaged => Par2Run { repair_needed: true, ..self },
            Par2Event::RepairRequired => Par2Run { repair_needed: true, ..self },
            Par2Event::RepairNotPossible => Par2Run { repair_possible: false, ..self },
            Par2Event::FileCount(count) => Par2Run { total_files: count, ..self },
            _ => self,
        }
    }

    /// Takes note of one line of output.
    pub fn observe(&mut self, event: Par2Event)
        ensures
            *final(self) == old(self).after(event),
    {
        match event {
            Par2Event::TargetFound => {
                if self.files_verified < u64::MAX {
                    self.files_verified = self.files_verified + 1;
                }
            },
            Par2Event::TargetDamaged => {
                self.repair_needed = true;
            },
            Par2Event::RepairRequired => {
                self.repair_needed = true;
            },
            Par2Event::RepairNotPossible => {
                self.repair_possible = false;
            },
            Par2Event::FileCount(count) => {
                self.total_files = count;
            },
            _ => {},
        }
    }

    /// How the run ended, given whether the tool exited with success.
    pub fn report(&self, exit_ok: bool) -> (report: Par2Report)
        ensures
            report == (if exit_ok {
                if self.repair_needed {
                    Par2Report::Repaired
                } else {
                    Par2Report::Verified
                }
            } else if !self.repair_possible {
                Par2Report::NotPossible
            } else {
                Par2Report::Failed
            }),
    {
        if exit_ok {
            if self.repair_needed {
                Par2Report::Repaired
            } else {
                Par2Report::Verified
            }
        } else if !self.repair_possible {
            Par2Report::NotPossible
        } else {
            Par2Report::Failed
        }
    }
}

/// What a report means for the steps that follow: success where the tool
/// succeeded, failure otherwise.
pub fn report_status(report: Par2Report) -> (status: Par2Status)
    ensures
        status == (match report {
            Par2Report::Repaired => Par2Status::Success,
            Par2Report::Verified => Par2Status::Success,
            Par2Report::NotPossible => Par2Status::Failed,
            Par2Report::Failed => Par2Status::Failed,
        }),
{
    match report {
        Par2Report::Repaired => Par2Status::Success,
        Par2Report::Verified => Par2Status::Success,
        Par2Report::NotPossible => Par2Status::Failed,
        Par2Report::Failed => Par2Status::Failed,
    }
}

/// Whether the recovery files are deleted after a run: the tool succeeded
/// and deletion is switched on.
pub fn deletes_par2(config: &PostProcessingConfig, report: Par2Report) -> (yes: bool)
    ensures
        yes == (config.delete_par2_after_repair && (report is Repaired || report is Verified)),
{
    let ok: bool = match report {
        Par2Report::Repaired => true,
        Par2Report::Verified => true,
        _ => false,
    };
    config.delete_par2_after_repair && ok
}

/// The index of the first name that does not hold `.vol`, if there is one.
pub open spec fn first_index_file(names: Seq<String>, from: int) -> Option<int>
    decreases names.len() - from,
{
    if from >= names.len() || from < 0 {
        None
    } else if !contains_text(names[from]@, ".vol"@) {
        Some(from)
    } else {
        first_index_file(names, from + 1)
    }
}

/// Picks the recovery file to start from: the first whose name does not
/// hold `.vol`; where every name does, the smallest file, and of several
/// smallest the first. `None` where there is no file.
pub fn main_par2(names: &Vec<String>, sizes: &Vec<u64>) -> (chosen: Option<usize>)
    requires
        names@.len() == sizes@.len(),
    ensures
        chosen.is_some() == (names@.len() > 0),
        chosen.is_some() ==> chosen.unwrap() < names@.len(),
        first_index_file(names@, 0).is_some() ==> chosen == Some(
            first_index_file(names@, 0).unwrap() as usize,
        ),
        first_index_file(names@, 0).is_none() && chosen.is_some() ==> {
            &&& forall|k: int|
                0 <= k < sizes@.len() ==> sizes@[chosen.unwrap() as int] <= #[trigger] sizes@[k]
            &&& forall|k: int|
                0 <= k < chosen.unwrap() ==> sizes@[chosen.unwrap() as int] < #[trigger] sizes@[k]
        },
{
    let mut i: usize = 0;
    while i < names.len()
        invariant
            i <= names.len(),
            first_index_file(names@, 0) == first_index_file(names@, i as int),
        decreases names.len() - i,
    {
        if !str_contains(names[i].as_str(), ".vol") {
            return Some(i);
        }
        i = i + 1;
    }
    if sizes.len() == 0 {
        return None;
    }
    let mut best: usize = 0;
    let mut k: usize = 1;
    while k < sizes.len()
        invariant
            best < k <= sizes.len(),
            forall|j: int| 0 <= j < k ==> sizes@[best as int] <= #[trigger] sizes@[j],
            forall|j: int| 0 <= j < best ==> sizes@[best as int] < #[trigger] sizes@[j],
        decreases sizes.len() - k,
    {
        if sizes[k] < sizes[best] {
            best = k;
        }
        k = k + 1;
    }
    Some(best)
}

/// The part of a lowercase archive name that all its volumes share: what
/// stands before the first `.part`; else what stands before the last `.r`;
/// else the whole name.
pub open spec fn is_rar_base(name: Seq<char>, base: Seq<char>) -> bool {
    if contains_text(name, ".part"@) {
        exists|at: int|
            #![trigger occurs_at(name, ".part"@, at)]
            occurs_at(name, ".part"@, at) && base == name.take(at) && forall|k: int|
                0 <= k < at ==> !occurs_at(name, ".part"@, k)
    } else if contains_text(name, ".r"@) {
        exists|at: int|
            #![trigger occurs_at(name, ".r"@, at)]
            occurs_at(name, ".r"@, at) && base == name.take(at) && forall|k: int|
                at < k ==> !occurs_at(name, ".r"@, k)
    } else {
        base == name
    }
}

/// The part of a lowercase archive name that all its volumes share.
pub fn rar_base_name(name: &str) -> (base: String)
    ensures
        is_rar_base(name@, base@),
{
    let chars: Vec<char> = to_chars(name);
    let part: Vec<char> = to_chars(".part");
    match find_text(&chars, &part) {
        Some(at) => {
            let base: String = prefix_of(name, at);
            assert(occurs_at(name@, ".part"@, at as int));
            base
        },
        None => {
            let r: Vec<char> = to_chars(".r");
            match rfind_text(&chars, &r) {
                Some(at) => {
                    let base: String = prefix_of(name, at);
                    assert(occurs_at(name@, ".r"@, at as int));
                    base
                },
                None => String::from_str(name),
            }
        },
    }
}

/// Whether a lowercase file name is a volume of the archive with the
/// lowercase base `base`: it begins with the base, names a part or an `.r`
/// extension, and ends in `.rar` or holds `.r`.
pub open spec fn is_volume_of(entry: Seq<char>, base: Seq<char>) -> bool {
    starts_with_text(entry, base) && (contains_text(entry, ".part"@) || contains_text(
        entry,
        ".r"@,
    )) && (ends_with_text(entry, ".rar"@) || contains_text(entry, ".r"@))
}

/// Whether a lowercase file name is a volume of the archive with the given
/// lowercase base.
pub fn is_archive_volume(entry: &str, base: &str) -> (yes: bool)
    ensures
        yes == is_volume_of(entry@, base@),
{
    str_starts_with(entry, base) && (str_contains(entry, ".part") || str_contains(entry, ".r"))
        && (str_ends_with(entry, ".rar") || str_contains(entry, ".r"))
}

/// Whether a lowercase file name may be the main file of a download: it is
/// no recovery file, no archive, no info file and no checksum file.
pub fn is_main_candidate(name: &str) -> (yes: bool)
    ensures
        yes == (!ends_with_text(name@, ".par2"@) && !ends_with_text(name@, ".rar"@)
            && !ends_with_text(name@, ".nfo"@) && !ends_with_text(name@, ".sfv"@)),
{
    !str_ends_with(name, ".par2") && !str_ends_with(name, ".rar") && !str_ends_with(name, ".nfo")
        && !str_ends_with(name, ".sfv")
}

/// The index of the first result among those from `from` on whose path has
/// the file name `name`.
pub open spec fn result_named(results: Seq<DownloadResult>, name: Seq<char>, from: int) -> Option<
    int,
>
    decreases results.len() - from,
{
    if from >= results.len() || from < 0 {
        None
    } else if file_name_of(results[from].path@) == Some(name) {
        Some(from)
    } else {
        result_named(results, name, from + 1)
    }
}

/// Whether the archive with the file name `name` lost a segment in the
/// download: the first result of that file name has failed segments.
pub open spec fn archive_damaged(results: Seq<DownloadResult>, name: Seq<char>) -> bool {
    match result_named(results, name, 0) {
        Some(i) => results[i].segments_failed > 0,
        None => false,
    }
}

/// Whether the archive with the file name `name` lost a segment in the
/// download.
pub fn is_archive_damaged(results: &Vec<DownloadResult>, name: &str) -> (damaged: bool)
    ensures
        damaged == archive_damaged(results@, name@),
{
    let mut i: usize = 0;
    while i < results.len()
        invariant
            i <= results.len(),
            result_named(results@, name@, 0) == result_named(results@, name@, i as int),
        decreases results.len() - i,
    {
        let found: Option<String> = path_file_name(results[i].path.as_str());
        let same: bool = match &found {
            Some(n) => same_text(n.as_str(), name),
            None => false,
        };
        if same {
            return results[i].segments_failed > 0;
        }
        i = i + 1;
    }
    false
}

} // verus!
