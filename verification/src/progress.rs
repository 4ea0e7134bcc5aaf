//! What the progress display shows, as text and numbers. Drawing it is the
//! caller's part.

use crate::text::{decimal, decimal_text, join4};
use vstd::prelude::*;
use vstd::string::*;

verus! {

/// The look of a progress bar.
#[derive(Debug, Clone, Copy)]
pub enum ProgressStyle {
    Download,
    Par2,
    Extract,
}

/// The template of a progress bar of the given style.
pub fn template(style: ProgressStyle) -> (t: &'static str)
    ensures
        t@ == (match style {
            ProgressStyle::Download =>
                "[{bar:40.cyan/blue}] {percent:>3}% {bytes:>10}/{total_bytes:<10} {bytes_per_sec:>12} ETA {eta:>5} {msg}"@,
            ProgressStyle::Par2 => "[{bar:40.yellow}] {percent:>3}% {msg}"@,
            ProgressStyle::Extract => "[{bar:40.green}] {percent:>3}% {msg}"@,
        }),
{
    match style {
        ProgressStyle::Download =>
            "[{bar:40.cyan/blue}] {percent:>3}% {bytes:>10}/{total_bytes:<10} {bytes_per_sec:>12} ETA {eta:>5} {msg}",
        ProgressStyle::Par2 => "[{bar:40.yellow}] {percent:>3}% {msg}",
        ProgressStyle::Extract => "[{bar:40.green}] {percent:>3}% {msg}",
    }
}

/// The message beside the bar: how many files of how many are done, as
/// `(done/total)`.
pub fn file_counter(done: usize, total: usize) -> (message: String)
    ensures
        message@ == "("@ + decimal_text(done as nat) + "/"@ + decimal_text(total as nat) + ")"@,
{
    let d: String = decimal(done as u64);
    let t: String = decimal(total as u64);
    let mut message: String = join4("(", d.as_str(), "/", t.as_str());
    message.append(")");
    message
}

/// Whether the message beside the bar is renewed when the `done`-th file of
/// `total` completes: at every fifth file and at the last.
pub fn counter_due(done: usize, total: usize) -> (due: bool)
    ensures
        due == (done % 5 == 0 || done == total),
{
    done % 5 == 0 || done == total
}

/// How much the bar moves for one segment: the size that the manifest gives
/// for it, whatever its body decoded to. Nothing for a segment number that
/// the file does not have.
pub fn progress_step(sizes: &Vec<u64>, segment_number: u32) -> (step: u64)
    ensures
        step == (if 1 <= segment_number <= sizes@.len() {
            sizes@[segment_number - 1]
        } else {
            0
        }),
{
    if segment_number == 0 {
        return 0;
    }
    let index: usize = (segment_number - 1) as usize;
    if index < sizes.len() {
        sizes[index]
    } else {
        0
    }
}

} // verus!
