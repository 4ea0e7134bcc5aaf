//! The manifest: files, their newsgroups and their segments.

use crate::error::{DlNzbError, NzbError};
use crate::text::{contains_text, decimal, decimal_text, join2, str_contains};
use crate::wrappers::{
    first_capture_of,
    lowercase,
    lowercase_of,
    parse_nzb,
    parsed_nzb,
    regex_first_capture,
};
use vstd::prelude::*;
use vstd::string::*;

verus! {

/// One article of a file.
#[derive(Debug, Clone)]
pub struct NzbSegment {
    /// The size the manifest gives for the article; it fixes the slot of the
    /// segment in the output file.
    pub bytes: u64,
    /// The ordinal of the segment within its file, counted from 1.
    pub number: u32,
    /// The handle by which the server knows the article.
    pub message_id: String,
}

/// A newsgroup that carries a file.
#[derive(Debug, Clone)]
pub struct NzbGroup {
    pub name: String,
}

/// The newsgroups of a file.
#[derive(Debug, Clone)]
pub struct NzbGroups {
    pub group: Vec<NzbGroup>,
}

/// The segments of a file, in the order of the manifest.
#[derive(Debug, Clone)]
pub struct NzbSegments {
    pub segment: Vec<NzbSegment>,
}

/// One file of a manifest.
#[derive(Debug, Clone)]
pub struct NzbFile {
    pub poster: String,
    /// Seconds since the epoch at which the file was posted.
    pub date: u64,
    pub subject: String,
    pub groups: NzbGroups,
    pub segments: NzbSegments,
}

/// One entry of a manifest's head.
#[derive(Debug, Clone)]
pub struct NzbMeta {
    pub meta_type: String,
    pub value: String,
}

/// The head of a manifest.
#[derive(Debug, Clone)]
pub struct NzbHead {
    pub meta: Option<NzbMeta>,
}

/// The sum of the sizes of the first `k` segments: the offset at which
/// segment `k` (counted from 0) starts in the output file.
pub open spec fn offset_of(segments: Seq<NzbSegment>, k: int) -> nat
    decreases k,
{
    if k <= 0 {
        0
    } else {
        offset_of(segments, k - 1) + segments[k - 1].bytes as nat
    }
}

/// The size of the output file: the sum of the sizes of all segments.
pub open spec fn total_bytes(segments: Seq<NzbSegment>) -> nat {
    offset_of(segments, segments.len() as int)
}

/// Offsets grow with the index.
pub proof fn lemma_offset_monotonic(segments: Seq<NzbSegment>, i: int, j: int)
    requires
        0 <= i <= j,
    ensures
        offset_of(segments, i) <= offset_of(segments, j),
    decreases j - i,
{
    if i < j {
        lemma_offset_monotonic(segments, i, j - 1);
    }
}

/// A manifest: its files in order, and what its head says of it.
#[derive(Debug, Clone)]
pub struct Nzb {
    pub files: Vec<NzbFile>,
    pub title: Option<String>,
    pub category: Option<String>,
    pub tags: Vec<String>,
    pub passwords: Vec<String>,
}

/// The regular expression that finds a file name in a subject: the text
/// between two quotation marks, each written as `"` or as `&quot;`.
pub open spec fn filename_pattern() -> Seq<char> {
    "(?:&quot;|\")([^\"]+)(?:&quot;|\")"@
}

/// `n` as a `u64`, held at `u64::MAX` where it is larger.
pub open spec fn capped_u64(n: nat) -> u64 {
    if n <= u64::MAX {
        n as u64
    } else {
        u64::MAX
    }
}

/// `n` as a `usize`, held at `usize::MAX` where it is larger.
pub open spec fn capped_usize(n: nat) -> usize {
    if n <= usize::MAX {
        n as usize
    } else {
        usize::MAX
    }
}

/// The bytes of the first `k` files, all segments together.
pub open spec fn bytes_of_files(files: Seq<NzbFile>, k: int) -> nat
    decreases k,
{
    if k <= 0 {
        0
    } else {
        bytes_of_files(files, k - 1) + total_bytes(files[k - 1].segments.segment@)
    }
}

/// The number of segments of the first `k` files.
pub open spec fn segments_of_files(files: Seq<NzbFile>, k: int) -> nat
    decreases k,
{
    if k <= 0 {
        0
    } else {
        segments_of_files(files, k - 1) + files[k - 1].segments.segment@.len()
    }
}

/// Whether a lowercase subject is that of a recovery file: it names `.par2`,
/// or `.par` and no `.part`.
pub open spec fn par2_rule(lower: Seq<char>) -> bool {
    contains_text(lower, ".par2"@) || (contains_text(lower, ".par"@) && !contains_text(
        lower,
        ".part"@,
    ))
}

/// Whether a subject is that of a recovery file, whatever its case.
pub open spec fn is_par2_subject(subject: Seq<char>) -> bool {
    par2_rule(lowercase_of(subject))
}

/// The files among the first `k` that are recovery files (`par2` true) or
/// are not (`par2` false), in order.
pub open spec fn files_of_kind(files: Seq<NzbFile>, k: int, par2: bool) -> Seq<NzbFile>
    decreases k,
{
    if k <= 0 {
        Seq::empty()
    } else if is_par2_subject(files[k - 1].subject@) == par2 {
        files_of_kind(files, k - 1, par2).push(files[k - 1])
    } else {
        files_of_kind(files, k - 1, par2)
    }
}

/// Decides by a lowercase subject whether a file is a recovery file.
pub fn par2_by_lowercase(lower: &str) -> (yes: bool)
    ensures
        yes == par2_rule(lower@),
{
    str_contains(lower, ".par2") || (str_contains(lower, ".par") && !str_contains(lower, ".part"))
}

/// The name under which a file is written: the name found in its subject,
/// or `unknown_file_` and the time of posting where none was found.
pub fn output_name(found: Option<String>, date: u64) -> (name: String)
    ensures
        name@ == (match found {
            Some(n) => n@,
            None => "unknown_file_"@ + decimal_text(date as nat),
        }),
{
    match found {
        Some(n) => n,
        None => {
            let number: String = decimal(date);
            join2("unknown_file_", number.as_str())
        },
    }
}

/// The error that a refused manifest is reported with.
pub fn parse_failure(text: &str) -> (e: DlNzbError)
    ensures
        e matches DlNzbError::Nzb(NzbError::ParseError(m)) && m@ == "Failed to parse NZB: "@
            + text@,
{
    DlNzbError::Nzb(NzbError::ParseError(join2("Failed to parse NZB: ", text)))
}

impl Nzb {
    /// Reads a manifest from its text.
    pub fn from_str(content: &str) -> (r: Result<Nzb, DlNzbError>)
        ensures
            match r {
                Ok(nzb) => parsed_nzb(content@) == Ok::<Nzb, Seq<char>>(nzb),
                Err(e) => parsed_nzb(content@) matches Err(text) && e matches DlNzbError::Nzb(
                    NzbError::ParseError(m),
                ) && m@ == "Failed to parse NZB: "@ + text,
            },
    {
        match parse_nzb(content) {
            Ok(nzb) => Ok(nzb),
            Err(text) => Err(parse_failure(text.as_str())),
        }
    }

    /// The files, in the order of the manifest.
    pub fn files(&self) -> (files: &Vec<NzbFile>)
        ensures
            files == &self.files,
    {
        &self.files
    }

    /// The size of all files together as the manifest gives it, held at
    /// `u64::MAX` where the sum would pass it.
    pub fn total_size(&self) -> (total: u64)
        ensures
            total == capped_u64(bytes_of_files(self.files@, self.files@.len() as int)),
    {
        let mut total: u64 = 0;
        let mut i: usize = 0;
        while i < self.files.len()
            invariant
                i <= self.files.len(),
                total == capped_u64(bytes_of_files(self.files@, i as int)),
            decreases self.files.len() - i,
        {
            let segments: &Vec<NzbSegment> = &self.files[i].segments.segment;
            let ghost before = bytes_of_files(self.files@, i as int);
            let mut j: usize = 0;
            while j < segments.len()
                invariant
                    j <= segments.len(),
                    total == capped_u64(before + offset_of(segments@, j as int)),
                decreases segments.len() - j,
            {
                total = total.saturating_add(segments[j].bytes);
                j = j + 1;
            }
            i = i + 1;
        }
        total
    }

    /// The number of segments of all files together, held at `usize::MAX`
    /// where the sum would pass it.
    pub fn total_segments(&self) -> (total: usize)
        ensures
            total == capped_usize(segments_of_files(self.files@, self.files@.len() as int)),
    {
        let mut total: usize = 0;
        let mut i: usize = 0;
        while i < self.files.len()
            invariant
                i <= self.files.len(),
                total == capped_usize(segments_of_files(self.files@, i as int)),
            decreases self.files.len() - i,
        {
            total = total.saturating_add(self.files[i].segments.segment.len());
            i = i + 1;
        }
        total
    }

    /// The file name that a subject carries between quotation marks, as in
    /// `[1/9] - "name.ext" yEnc (1/5202)`.
    pub fn get_filename_from_subject(subject: &str) -> (name: Option<String>)
        ensures
            name.is_some() == first_capture_of(filename_pattern(), subject@).is_some(),
            name.is_some() ==> name.unwrap()@ == first_capture_of(
                filename_pattern(),
                subject@,
            ).unwrap(),
    {
        regex_first_capture("(?:&quot;|\")([^\"]+)(?:&quot;|\")", subject)
    }

    /// Whether a subject is that of a recovery file.
    pub fn is_par2_file(subject: &str) -> (yes: bool)
        ensures
            yes == is_par2_subject(subject@),
    {
        let lower: String = lowercase(subject);
        par2_by_lowercase(lower.as_str())
    }

    /// The files that are no recovery files, in the order of the manifest.
    pub fn get_main_files(&self) -> (main: Vec<&NzbFile>)
        ensures
            main@.len() == files_of_kind(self.files@, self.files@.len() as int, false).len(),
            forall|i: int|
                0 <= i < main@.len() ==> *main@[i] == files_of_kind(
                    self.files@,
                    self.files@.len() as int,
                    false,
                )[i],
    {
        self.files_by_kind(false)
    }

    /// The recovery files, in the order of the manifest.
    pub fn get_par2_files(&self) -> (par2: Vec<&NzbFile>)
        ensures
            par2@.len() == files_of_kind(self.files@, self.files@.len() as int, true).len(),
            forall|i: int|
                0 <= i < par2@.len() ==> *par2@[i] == files_of_kind(
                    self.files@,
                    self.files@.len() as int,
                    true,
                )[i],
    {
        self.files_by_kind(true)
    }

    fn files_by_kind(&self, par2: bool) -> (found: Vec<&NzbFile>)
        ensures
            found@.len() == files_of_kind(self.files@, self.files@.len() as int, par2).len(),
            forall|i: int|
                0 <= i < found@.len() ==> *found@[i] == files_of_kind(
                    self.files@,
                    self.files@.len() as int,
                    par2,
                )[i],
    {
        let mut found: Vec<&NzbFile> = Vec::new();
        let mut i: usize = 0;
        while i < self.files.len()
            invariant
                i <= self.files.len(),
                found@.len() == files_of_kind(self.files@, i as int, par2).len(),
                forall|k: int|
                    0 <= k < found@.len() ==> *found@[k] == files_of_kind(
                        self.files@,
                        i as int,
                        par2,
                    )[k],
            decreases self.files.len() - i,
        {
            let file: &NzbFile = &self.files[i];
            if Nzb::is_par2_file(file.subject.as_str()) == par2 {
                found.push(file);
            }
            i = i + 1;
        }
        found
    }

    /// The file name that the subject of the first file carries.
    pub fn get_filename(&self) -> (name: Option<String>)
        ensures
            self.files@.len() == 0 ==> name.is_none(),
            self.files@.len() > 0 ==> name.is_some() == first_capture_of(
                filename_pattern(),
                self.files@[0].subject@,
            ).is_some(),
            self.files@.len() > 0 && name.is_some() ==> name.unwrap()@ == first_capture_of(
                filename_pattern(),
                self.files@[0].subject@,
            ).unwrap(),
    {
        if self.files.len() == 0 {
            None
        } else {
            Nzb::get_filename_from_subject(self.files[0].subject.as_str())
        }
    }

    /// The title for the key `title`, the category for the key `category`,
    /// nothing for any other key.
    pub fn get_metadata(&self, key: &str) -> (value: Option<String>)
        ensures
            value == (if key@ == "title"@ {
                self.title
            } else if key@ == "category"@ {
                self.category
            } else {
                None
            }),
    {
        if crate::text::same_text(key, "title") {
            self.title.clone()
        } else if crate::text::same_text(key, "category") {
            self.category.clone()
        } else {
            None
        }
    }
}

/// The entries of a manifest's head as pairs of key and value: the title,
/// the category, then each tag and each password, in that order.
pub open spec fn metadata_of(nzb: Nzb) -> Seq<(Seq<char>, Seq<char>)> {
    let title = match nzb.title {
        Some(t) => seq![("title"@, t@)],
        None => Seq::empty(),
    };
    let category = match nzb.category {
        Some(c) => seq![("category"@, c@)],
        None => Seq::empty(),
    };
    title + category + Seq::new(nzb.tags@.len(), |i: int| ("tag"@, nzb.tags@[i]@)) + Seq::new(
        nzb.passwords@.len(),
        |i: int| ("password"@, nzb.passwords@[i]@),
    )
}

/// The texts of a list of pairs.
pub open spec fn pair_texts(pairs: Seq<(String, String)>) -> Seq<(Seq<char>, Seq<char>)> {
    Seq::new(pairs.len(), |i: int| (pairs[i].0@, pairs[i].1@))
}

impl Nzb {
    /// The entries of the head as pairs of key and value.
    pub fn get_all_metadata(&self) -> (metadata: Vec<(String, String)>)
        ensures
            pair_texts(metadata@) == metadata_of(*self),
    {
        let mut metadata: Vec<(String, String)> = Vec::new();
        if let Some(title) = &self.title {
            metadata.push((String::from_str("title"), title.clone()));
        }
        if let Some(category) = &self.category {
            metadata.push((String::from_str("category"), category.clone()));
        }
        let ghost head = pair_texts(metadata@);
        let mut i: usize = 0;
        assert(pair_texts(metadata@) =~= head + Seq::new(0, |k: int| ("tag"@, self.tags@[k]@)));
        while i < self.tags.len()
            invariant
                i <= self.tags.len(),
                pair_texts(metadata@) == head + Seq::new(i as nat, |k: int| ("tag"@, self.tags@[k]@)),
            decreases self.tags.len() - i,
        {
            let ghost before = metadata@;
            let key: String = String::from_str("tag");
            let value: String = self.tags[i].clone();
            metadata.push((key, value));
            proof {
                assert(metadata@ == before.push((key, value)));
                assert(pair_texts(metadata@) =~= pair_texts(before).push(("tag"@, value@)));
                assert(pair_texts(before).push(("tag"@, value@)) =~= head + Seq::new(
                    (i + 1) as nat,
                    |k: int| ("tag"@, self.tags@[k]@),
                ));
            }
            i = i + 1;
        }
        let ghost with_tags = pair_texts(metadata@);
        let mut j: usize = 0;
        assert(pair_texts(metadata@) =~= with_tags + Seq::new(
            0,
            |k: int| ("password"@, self.passwords@[k]@),
        ));
        while j < self.passwords.len()
            invariant
                j <= self.passwords.len(),
                pair_texts(metadata@) == with_tags + Seq::new(
                    j as nat,
                    |k: int| ("password"@, self.passwords@[k]@),
                ),
            decreases self.passwords.len() - j,
        {
            let ghost before = metadata@;
            let key: String = String::from_str("password");
            let value: String = self.passwords[j].clone();
            metadata.push((key, value));
            proof {
                assert(metadata@ == before.push((key, value)));
                assert(pair_texts(metadata@) =~= pair_texts(before).push(("password"@, value@)));
                assert(pair_texts(before).push(("password"@, value@)) =~= with_tags + Seq::new(
                    (j + 1) as nat,
                    |k: int| ("password"@, self.passwords@[k]@),
                ));
            }
            j = j + 1;
        }
        assert(pair_texts(metadata@) =~= metadata_of(*self));
        metadata
    }
}

} // verus!
