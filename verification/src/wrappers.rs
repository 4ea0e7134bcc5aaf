//! Calls into code that is not verified here. Each function below is
//! believed, not proved: its contract says only that the result is the one
//! the named library function gives for these arguments.

use crate::nzb::{Nzb, NzbFile, NzbGroup, NzbGroups, NzbSegment, NzbSegments};
use vstd::prelude::*;

verus! {

/// What `str::to_lowercase` gives for a text.
pub uninterp spec fn lowercase_of(text: Seq<char>) -> Seq<char>;

/// What `Path::extension` gives for a path, read by the rules of the
/// platform that the library is built for: the part of the file name after
/// its last dot, if it has one.
pub uninterp spec fn extension_of(path: Seq<char>) -> Option<Seq<char>>;

/// What `Path::file_name` gives for a path, read by the rules of the
/// platform that the library is built for: its last component, if it has
/// one.
pub uninterp spec fn file_name_of(path: Seq<char>) -> Option<Seq<char>>;

/// What `Path::file_stem` gives for a path, read by the rules of the
/// platform that the library is built for: its file name without the
/// extension, if it has a file name.
pub uninterp spec fn file_stem_of(path: Seq<char>) -> Option<Seq<char>>;

/// What `str::split_whitespace` gives for a text: its parts between runs of
/// white space, in order.
pub uninterp spec fn tokens_of(text: Seq<char>) -> Seq<Seq<char>>;

/// Calls `str::to_lowercase`. The contract only names the result: the
/// lowercase form that the standard library gives, by the Unicode rules.
#[verifier::external_body]
pub(crate) fn lowercase(text: &str) -> (lower: String)
    ensures
        lower@ == lowercase_of(text@),
{
    text.to_lowercase()
}

/// Calls `Path::extension` on the path that `path` spells. The contract
/// only names the result.
#[verifier::external_body]
pub(crate) fn path_extension(path: &str) -> (extension: Option<String>)
    ensures
        extension.is_some() == extension_of(path@).is_some(),
        extension.is_some() ==> extension.unwrap()@ == extension_of(path@).unwrap(),
{
    std::path::Path::new(path).extension().and_then(|e| e.to_str()).map(|e| e.to_string())
}

/// Calls `Path::file_name` on the path that `path` spells. The contract
/// only names the result.
#[verifier::external_body]
pub(crate) fn path_file_name(path: &str) -> (name: Option<String>)
    ensures
        name.is_some() == file_name_of(path@).is_some(),
        name.is_some() ==> name.unwrap()@ == file_name_of(path@).unwrap(),
{
    std::path::Path::new(path).file_name().and_then(|n| n.to_str()).map(|n| n.to_string())
}

/// Calls `Path::file_stem` on the path that `path` spells. The contract
/// only names the result.
#[verifier::external_body]
pub(crate) fn path_file_stem(path: &str) -> (stem: Option<String>)
    ensures
        stem.is_some() == file_stem_of(path@).is_some(),
        stem.is_some() ==> stem.unwrap()@ == file_stem_of(path@).unwrap(),
{
    std::path::Path::new(path).file_stem().and_then(|n| n.to_str()).map(|n| n.to_string())
}

/// Calls `str::split_whitespace` and collects the parts. The contract only
/// names the result.
#[verifier::external_body]
pub(crate) fn whitespace_tokens(text: &str) -> (tokens: Vec<String>)
    ensures
        tokens@.len() == tokens_of(text@).len(),
        forall|i: int| 0 <= i < tokens@.len() ==> tokens@[i]@ == tokens_of(text@)[i],
{
    text.split_whitespace().map(|t| t.to_string()).collect()
}

/// What `regex::Regex::captures` gives as its first group, for the regular
/// expression that `pattern` spells: the text of group 1 of the leftmost
/// match in `text`, or `None` where the pattern is no regular expression,
/// nothing matches, or the group took no part in the match.
pub uninterp spec fn first_capture_of(pattern: Seq<char>, text: Seq<char>) -> Option<Seq<char>>;

/// What `nzb_rs::Nzb::parse` makes of the text of a manifest: its files and
/// metadata, or the text of the error.
pub uninterp spec fn parsed_nzb(content: Seq<char>) -> Result<Nzb, Seq<char>>;

/// Whether `r` is the outcome `named`: the same manifest, or an error with
/// the same text.
pub open spec fn is_outcome(r: Result<Nzb, String>, named: Result<Nzb, Seq<char>>) -> bool {
    match r {
        Ok(nzb) => named == Ok::<Nzb, Seq<char>>(nzb),
        Err(text) => named == Err::<Nzb, Seq<char>>(text@),
    }
}

/// Compiles `pattern` with `regex::Regex::new` and calls
/// `regex::Regex::captures` on `text`. The contract only names the result.
#[verifier::external_body]
pub(crate) fn regex_first_capture(pattern: &str, text: &str) -> (found: Option<String>)
    ensures
        found.is_some() == first_capture_of(pattern@, text@).is_some(),
        found.is_some() ==> found.unwrap()@ == first_capture_of(pattern@, text@).unwrap(),
{
    let re = regex::Regex::new(pattern).ok()?;
    re.captures(text).and_then(|c| c.get(1)).map(|m| m.as_str().to_string())
}

/// Calls `nzb_rs::Nzb::parse` and hands the result out in the types of this
/// library, field by field; the time of posting as seconds since the epoch.
/// The contract only names the result.
#[verifier::external_body]
pub(crate) fn parse_nzb(content: &str) -> (r: Result<Nzb, String>)
    ensures
        is_outcome(r, parsed_nzb(content@)),
{
    let p = nzb_rs::Nzb::parse(content).map_err(|e| e.to_string())?;
    let files = p.files.into_iter().map(|f| NzbFile {
        poster: f.poster,
        date: f.posted_at.timestamp() as u64,
        subject: f.subject,
        groups: NzbGroups { group: f.groups.into_iter().map(|name| NzbGroup { name }).collect() },
        segments: NzbSegments { segment: f.segments.into_iter().map(|s| NzbSegment { bytes: s.size as u64, number: s.number, message_id: s.message_id }).collect() },
    }).collect();
    let m = p.meta;
    Ok(Nzb { files, title: m.title, category: m.category, tags: m.tags, passwords: m.passwords })
}

} // verus!
