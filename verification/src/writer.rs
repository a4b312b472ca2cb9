//! Writing a commit record, the nonce behind it and the header before it.

use crate::errors::WriterErrors;
use crate::record::{
    author_text, blob_text, candidate_text, headed_text, identity_text, initial_blob_text,
    lemma_blank_line, non_initial_blob_text, timestamp_text, UTC_OFFSET_LIMIT,
};
use crate::text::{decimal_string, hex_padded_string};
use vstd::prelude::*;
use vstd::string::*;

verus! {

/// Nanoseconds in a second.
pub const NANOS_PER_SECOND: i32 = 1_000_000_000;

/// The text of an optional identifier.
pub open spec fn optional_text(id: Option<String>) -> Option<Seq<char>> {
    match id {
        Some(s) => Some(s@),
        None => None,
    }
}

/// The time of a commit, broken down as the calendar and the clock show it.
/// The fields are those of `Tm` of the crate `time`, under their names.
#[derive(Clone, Copy, Debug, PartialEq, Eq)]
pub struct CommitTime {
    /// Seconds after the minute.
    pub tm_sec: i32,
    /// Minutes after the hour.
    pub tm_min: i32,
    /// Hours after midnight.
    pub tm_hour: i32,
    /// Day of the month, from one.
    pub tm_mday: i32,
    /// Months since January.
    pub tm_mon: i32,
    /// Years since 1900.
    pub tm_year: i32,
    /// Days since Sunday.
    pub tm_wday: i32,
    /// Days since the first of January.
    pub tm_yday: i32,
    /// Positive where daylight saving time is in effect, zero where it is
    /// not, negative where that is not known.
    pub tm_isdst: i32,
    /// Seconds east of UTC of the time zone that the fields are in.
    pub tm_utcoff: i32,
    /// Nanoseconds after the second.
    pub tm_nsec: i32,
}

/// The times that can be written into a record: the day of the week, the
/// month and the nanoseconds are in their ranges, and the hours of the
/// offset from UTC take two digits.
pub open spec fn renderable(commit_time: CommitTime) -> bool {
    &&& 0 <= commit_time.tm_wday <= 6
    &&& 0 <= commit_time.tm_mon <= 11
    &&& 0 <= commit_time.tm_nsec < NANOS_PER_SECOND
    &&& -UTC_OFFSET_LIMIT < commit_time.tm_utcoff < UTC_OFFSET_LIMIT
}

/// The error of the crate `time`. The library only tells that one came.
#[verifier::external_type_specification]
#[verifier::external_body]
pub struct ExParseError(time::ParseError);

/// Makes a `Tm` of the crate `time` with the fields of `commit_time`, calls
/// `Tm::strftime` on it with the format `%s %z`, and writes the result out
/// as text. `strftime` accepts the format exactly when the day of the week
/// and the month are in their ranges. `%s` writes the seconds since the
/// epoch, as the C library of the machine computes them from the fields, in
/// decimal; `%z` writes the sign of the offset from UTC, `-` unless the
/// offset is positive, then its hours and its minutes with at least two
/// digits each. `%s` panics on nanoseconds out of range, and `%z` overflows
/// on the smallest offset, which has no absolute value.
#[verifier::external_body]
fn format_commit_time(t: &CommitTime) -> (formatted: Result<String, time::ParseError>)
    requires
        0 <= t.tm_nsec < NANOS_PER_SECOND,
        t.tm_utcoff > i32::MIN,
    ensures
        formatted is Ok <==> (0 <= t.tm_wday <= 6 && 0 <= t.tm_mon <= 11),
        formatted matches Ok(text) ==> exists|seconds: int|
            i64::MIN <= seconds <= i64::MAX && text@ == #[trigger] timestamp_text(
                seconds,
                t.tm_utcoff as int,
            ),
{
    let tm = time::Tm {
        tm_sec: t.tm_sec, tm_min: t.tm_min, tm_hour: t.tm_hour,
        tm_mday: t.tm_mday, tm_mon: t.tm_mon, tm_year: t.tm_year,
        tm_wday: t.tm_wday, tm_yday: t.tm_yday, tm_isdst: t.tm_isdst,
        tm_utcoff: t.tm_utcoff, tm_nsec: t.tm_nsec,
    };
    match tm.strftime("%s %z") {
        Ok(formatted) => Ok(formatted.to_string()),
        Err(e) => Err(e),
    }
}

/// Writes the record of a commit: with its parent line where there is a
/// parent, without it where there is none. Fails exactly when the commit
/// time cannot be written.
pub fn generate_blob(
    tree: String,
    parent: Option<String>,
    author: String,
    message: String,
    commit_time: CommitTime,
) -> (result: Result<String, WriterErrors>)
    ensures
        result is Ok <==> renderable(commit_time),
        result matches Ok(blob) ==> exists|seconds: int|
            i64::MIN <= seconds <= i64::MAX && blob@ == blob_text(
                tree@,
                optional_text(parent),
                author@,
                #[trigger] timestamp_text(seconds, commit_time.tm_utcoff as int),
                message@,
            ),
        result matches Err(e) ==> e == WriterErrors::TimeFormatError,
{
    if commit_time.tm_nsec < 0 || commit_time.tm_nsec >= NANOS_PER_SECOND {
        return Err(WriterErrors::TimeFormatError);
    }
    if commit_time.tm_utcoff <= -UTC_OFFSET_LIMIT || commit_time.tm_utcoff >= UTC_OFFSET_LIMIT {
        return Err(WriterErrors::TimeFormatError);
    }
    let formatted = format_commit_time(&commit_time);
    blob_from_formatted_time(tree, parent, author, message, formatted)
}

/// Writes the record of a commit around a time that is already text, or
/// reports that the time could not be written.
pub fn blob_from_formatted_time(
    tree: String,
    parent: Option<String>,
    author: String,
    message: String,
    formatted: Result<String, time::ParseError>,
) -> (result: Result<String, WriterErrors>)
    ensures
        match formatted {
            Ok(time) => result matches Ok(blob) && blob@ == blob_text(
                tree@,
                optional_text(parent),
                author@,
                time@,
                message@,
            ),
            Err(_) => result == Err::<String, WriterErrors>(WriterErrors::TimeFormatError),
        },
{
    let time_str = match formatted {
        Ok(time) => time,
        Err(_) => {
            return Err(WriterErrors::TimeFormatError);
        },
    };
    let blob = if let Some(p) = parent {
        generate_non_initial_blob(tree, p, author, message, time_str)
    } else {
        generate_initial_blob(tree, author, message, time_str)
    };
    Ok(blob)
}

/// Appends to `blob` the line that names `author` in the role `role`, and
/// the line feed that ends it.
fn append_identity_line(blob: &mut String, role: &str, author: &str, commit_time: &str)
    ensures
        final(blob)@ == old(blob)@ + (role@ + identity_text(author@, commit_time@)) + "\n"@,
{
    blob.append(role);
    blob.append(author);
    blob.append(" ");
    blob.append(commit_time);
    blob.append("\n");
    assert(blob@ =~= old(blob)@ + (role@ + identity_text(author@, commit_time@)) + "\n"@);
}

/// Writes the record of a commit without a parent.
fn generate_initial_blob(
    tree: String,
    author: String,
    message: String,
    commit_time: String,
) -> (blob: String)
    ensures
        blob@ == initial_blob_text(tree@, author@, commit_time@, message@),
{
    let mut blob = String::from_str("tree ");
    blob.append(tree.as_str());
    blob.append("\n");
    append_identity_line(&mut blob, "author ", author.as_str(), commit_time.as_str());
    append_identity_line(&mut blob, "committer ", author.as_str(), commit_time.as_str());
    blob.append("\n");
    blob.append(message.as_str());
    proof {
        lemma_blank_line();
        assert(blob@ =~= initial_blob_text(tree@, author@, commit_time@, message@));
    }
    blob
}

/// Writes the record of a commit with a parent.
fn generate_non_initial_blob(
    tree: String,
    parent: String,
    author: String,
    message: String,
    commit_time: String,
) -> (blob: String)
    ensures
        blob@ == non_initial_blob_text(tree@, parent@, author@, commit_time@, message@),
{
    let mut blob = String::from_str("tree ");
    blob.append(tree.as_str());
    blob.append("\n");
    blob.append("parent ");
    blob.append(parent.as_str());
    blob.append("\n");
    append_identity_line(&mut blob, "author ", author.as_str(), commit_time.as_str());
    append_identity_line(&mut blob, "committer ", author.as_str(), commit_time.as_str());
    blob.append("\n");
    blob.append(message.as_str());
    proof {
        lemma_blank_line();
        assert(blob@ =~= non_initial_blob_text(tree@, parent@, author@, commit_time@, message@));
    }
    blob
}

/// Writes an identity: the name, then the address in angle brackets.
pub fn format_author(name: &str, email: &str) -> (author: String)
    ensures
        author@ == author_text(name@, email@),
{
    let mut author = String::from_str(name);
    author.append(" <");
    author.append(email);
    author.append(">");
    author
}

/// Appends a nonce to the end of a record: a line feed, then the nonce as
/// eight lowercase hexadecimal digits.
pub fn append_nonce_to_blob(blob: &str, nonce: u32) -> (candidate: String)
    ensures
        candidate@ == candidate_text(blob@, nonce),
{
    let mut candidate = String::from_str(blob);
    candidate.append("\n");
    let digits = hex_padded_string(nonce, 8);
    candidate.append(digits.as_str());
    candidate
}

/// Puts before a record the header under which the object store hashes it:
/// the word `commit`, the number of bytes of the record, and a NUL.
pub fn prepend_header_to_blob(blob: &str) -> (headed: String)
    ensures
        headed@ == headed_text(blob@),
{
    let mut headed = String::from_str("commit ");
    let length = decimal_string(blob.as_bytes().len());
    headed.append(length.as_str());
    headed.append("\0");
    headed.append(blob);
    assert(headed@ =~= headed_text(blob@));
    headed
}

} // verus!
