//! Decision rules of the object-store garbage collector.
//!
//! The collector walks the object store and decides, file by file,
//! whether a file is garbage. A file is kept when it is newer than
//! the cutoff, and kept when the catalog still references its parquet
//! object identifier; everything old that the catalog provably does
//! not reference — including files that are not parquet files at all
//! — is deleted. The catalog lookup itself happens outside; this
//! module classifies a file from plain values and folds the catalog's
//! answer into the final verdict.

use vstd::prelude::*;

verus! {

/// Verdict of the local classification of one object-store file.
#[derive(Clone, Copy, Debug, PartialEq, Eq, Structural)]
pub enum FileCheck {
    /// The file stays: it is newer than the cutoff.
    Keep,
    /// The file is garbage regardless of the catalog: old enough and
    /// not named like a parquet object.
    Delete,
    /// Old enough and named by a parquet object identifier: ask the
    /// catalog whether the identifier is still referenced.
    AskCatalog(u128),
}

/// Name for the value `uuid::Uuid::try_parse` reads out of a string;
/// it depends on the characters alone.
pub uninterp spec fn uuid_value_of(s: Seq<char>) -> Option<u128>;

/// Relies on uuid::Uuid::try_parse: parses an identifier from
/// hexadecimal digits with optional hyphens, a function of the string
/// alone. The identifier is carried as its 128-bit integer value.
#[verifier::external_body]
fn parse_uuid(s: &str) -> (r: Option<u128>)
    ensures
        r == uuid_value_of(s@),
{
    match uuid::Uuid::try_parse(s) {
        Ok(u) => Some(u.as_u128()),
        Err(_) => None,
    }
}

/// The file-name suffix of parquet objects.
pub open spec fn parquet_suffix() -> Seq<char> {
    seq!['.', 'p', 'a', 'r', 'q', 'u', 'e', 't']
}

/// Classification of one file from its age and name, as a function
/// of plain values: newer than the cutoff means keep; an old file
/// without the parquet suffix, or whose stem is no identifier, means
/// delete; otherwise the catalog decides.
pub open spec fn spec_classify_file(cutoff: i64, last_modified: i64, name: Seq<char>) -> FileCheck {
    if cutoff < last_modified {
        FileCheck::Keep
    } else if name.len() < 8 || name.skip(name.len() - 8) != parquet_suffix() {
        FileCheck::Delete
    } else {
        match uuid_value_of(name.take(name.len() - 8)) {
            None => FileCheck::Delete,
            Some(id) => FileCheck::AskCatalog(id),
        }
    }
}

/// The verdict once the catalog has answered: a referenced file
/// stays, everything else classified for deletion goes.
pub open spec fn spec_should_delete(check: FileCheck, in_catalog: bool) -> bool {
    match check {
        FileCheck::Keep => false,
        FileCheck::Delete => true,
        FileCheck::AskCatalog(_) => !in_catalog,
    }
}

/// Classify one object-store file from its last-modified time, the
/// collector's cutoff (both in nanoseconds), and its file name.
pub fn classify_file(cutoff: i64, last_modified: i64, file_name: &str) -> (r: FileCheck)
    ensures
        r == spec_classify_file(cutoff, last_modified, file_name@),
{
    if cutoff < last_modified {
        return FileCheck::Keep;
    }
    let n = file_name.unicode_len();
    if n < 8 {
        return FileCheck::Delete;
    }
    let suffix = file_name.substring_char(n - 8, n);
    if !(suffix.unicode_len() == 8 && suffix.get_char(0) == '.' && suffix.get_char(1) == 'p'
        && suffix.get_char(2) == 'a' && suffix.get_char(3) == 'r' && suffix.get_char(4) == 'q'
        && suffix.get_char(5) == 'u' && suffix.get_char(6) == 'e' && suffix.get_char(7) == 't') {
        proof {
            assert(file_name@.skip(n - 8) != parquet_suffix());
        }
        return FileCheck::Delete;
    }
    proof {
        assert(suffix@ =~= file_name@.skip(n - 8));
        assert(file_name@.skip(n - 8) =~= parquet_suffix());
    }
    let stem = file_name.substring_char(0, n - 8);
    proof {
        assert(stem@ =~= file_name@.take(n - 8));
    }
    match parse_uuid(stem) {
        None => FileCheck::Delete,
        Some(id) => FileCheck::AskCatalog(id),
    }
}

/// Fold the catalog's answer into the final verdict for one file.
/// `in_catalog` reports whether the catalog references the file's
/// parquet object identifier; it is only consulted for files the
/// classification left to the catalog.
pub fn should_delete(check: FileCheck, in_catalog: bool) -> (r: bool)
    ensures
        r == spec_should_delete(check, in_catalog),
{
    match check {
        FileCheck::Keep => false,
        FileCheck::Delete => true,
        FileCheck::AskCatalog(_) => !in_catalog,
    }
}

} // verus!
