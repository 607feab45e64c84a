//! The yearly CFTC archive: a ZIP file holding the year's report as text.
use crate::text::{concat_text, decimal_string, decimal_text};
use std::io::{Cursor, Read};
use vstd::prelude::*;
use zip::ZipArchive;

verus! {

/// The `zip` crate's error.
#[verifier::external_type_specification]
#[verifier::external_body]
pub struct ExZipError(zip::result::ZipError);

/// What `zip::ZipArchive::new` over the bytes gives as `len()`: the number
/// of entries, or nothing where the archive does not open.
pub uninterp spec fn spec_zip_entry_count(archive: Seq<u8>) -> Option<nat>;

/// What `by_index(index)` and then `name()` give on the archive opened
/// from the bytes: the entry's name, or nothing where a step fails.
pub uninterp spec fn spec_zip_entry_name(archive: Seq<u8>, index: nat) -> Option<Seq<char>>;

/// What `by_index(index)` and then `read_to_end` give on the archive opened
/// from the bytes: nothing where the archive does not open or `by_index`
/// fails; `Some(None)` where `read_to_end` fails; else the entry's whole
/// uncompressed content.
pub uninterp spec fn spec_zip_entry_data(archive: Seq<u8>, index: nat) -> Option<Option<Seq<u8>>>;

/// Opens the archive with `zip::ZipArchive::new` over a `Cursor` of the
/// bytes and returns its `len()`. Claimed: the call succeeds exactly where
/// the name `spec_zip_entry_count` has a count, and returns that count.
#[verifier::external_body]
pub(crate) fn zip_entry_count(archive: &[u8]) -> (r: Result<usize, zip::result::ZipError>)
    ensures
        r is Ok <==> spec_zip_entry_count(archive@) is Some,
        r matches Ok(n) ==> spec_zip_entry_count(archive@) == Some(n as nat),
{
    match ZipArchive::new(Cursor::new(archive)) {
        Ok(opened) => Ok(opened.len()),
        Err(e) => Err(e),
    }
}

/// Opens the archive with `zip::ZipArchive::new` and returns the `name()`
/// of the entry that `by_index(index)` gives. Claimed: the call succeeds
/// exactly where the name `spec_zip_entry_name` has a name, and returns it;
/// it succeeds only for an index below the archive's entry count, as
/// `by_index` refuses any other.
#[verifier::external_body]
pub(crate) fn zip_entry_name(archive: &[u8], index: usize) -> (r: Result<
    String,
    zip::result::ZipError,
>)
    ensures
        r is Ok <==> spec_zip_entry_name(archive@, index as nat) is Some,
        r matches Ok(n) ==> spec_zip_entry_name(archive@, index as nat) == Some(n@),
        r is Ok ==> (spec_zip_entry_count(archive@) matches Some(n) && index < n),
{
    let mut opened = ZipArchive::new(Cursor::new(archive))?;
    let entry = opened.by_index(index)?;
    let name = entry.name()?;
    Ok(name.to_string())
}

/// Opens the archive with `zip::ZipArchive::new` and reads to the end, with
/// `read_to_end`, the entry that `by_index(index)` gives. An error of the
/// open or of `by_index` is the `Err`; otherwise the answer is the bytes
/// read, with the read's error where `read_to_end` failed. Claimed: the
/// call answers `Ok` exactly where the name `spec_zip_entry_data` has an
/// answer; a read without error gives the whole content that the name
/// holds, and a read error comes exactly where the name says the read
/// fails; `Ok` comes only for an index below the archive's entry count, as
/// `by_index` refuses any other. Of the bytes returned with a read error
/// nothing is claimed: std appends to them what was read before the
/// error, which depends on how the reads were cut.
#[verifier::external_body]
pub(crate) fn zip_entry_data(archive: &[u8], index: usize) -> (r: Result<
    (Vec<u8>, Option<zip::result::ZipError>),
    zip::result::ZipError,
>)
    ensures
        r is Ok <==> spec_zip_entry_data(archive@, index as nat) is Some,
        r matches Ok((d, None)) ==> spec_zip_entry_data(archive@, index as nat) == Some(
            Some(d@),
        ),
        r matches Ok((_, Some(_))) ==> spec_zip_entry_data(archive@, index as nat) == Some(
            None::<Seq<u8>>,
        ),
        r is Ok ==> (spec_zip_entry_count(archive@) matches Some(n) && index < n),
{
    let mut opened = ZipArchive::new(Cursor::new(archive))?;
    let mut entry = opened.by_index(index)?;
    let mut content = Vec::new();
    match entry.read_to_end(&mut content) {
        Ok(_) => Ok((content, None)),
        Err(e) => Ok((content, Some(zip::result::ZipError::Io(e)))),
    }
}

/// The text of an archive entry as far as it was read: the whole content,
/// or, where reading it failed, the bytes read before the failure with the
/// read's error.
#[derive(Debug)]
pub struct ArchiveText {
    pub data: Vec<u8>,
    pub read_error: Option<zip::result::ZipError>,
}

/// What reading an entry gives as an `ArchiveText`, given what the entry
/// read gives: its whole content and no error, or some bytes and an error.
pub open spec fn entry_text_outcome(read: Option<Seq<u8>>, t: ArchiveText) -> bool {
    match read {
        Some(data) => t.data@ == data && t.read_error is None,
        None => t.read_error is Some,
    }
}

/// Why the report could not be taken out of the archive.
#[derive(Debug)]
pub enum ArchiveError {
    /// The archive did not open, or the report's entry did not open.
    Zip(zip::result::ZipError),
    /// No entry's name ends in `.txt`.
    NoTextEntry,
    /// The archive of the given year has no readable first entry.
    MissingFirstEntry(i64),
}

/// A name that ends in `.txt`.
pub open spec fn has_txt_suffix(name: Seq<char>) -> bool {
    name.len() >= 4 && name.subrange(name.len() - 4, name.len() as int) == seq!['.', 't', 'x', 't']
}

/// Whether `name` ends in `.txt`.
pub fn ends_with_txt(name: &str) -> (r: bool)
    ensures
        r == has_txt_suffix(name@),
{
    let n = name.unicode_len();
    if n < 4 {
        return false;
    }
    let a = name.get_char(n - 4);
    let b = name.get_char(n - 3);
    let c = name.get_char(n - 2);
    let d = name.get_char(n - 1);
    let r = a == '.' && b == 't' && c == 'x' && d == 't';
    proof {
        let tail = name@.subrange(n - 4, n as int);
        if r {
            assert(tail =~= seq!['.', 't', 'x', 't']);
        }
        if has_txt_suffix(name@) {
            assert(tail[0] == a && tail[1] == b && tail[2] == c && tail[3] == d);
        }
    }
    r
}

/// Entry `i` of the archive reads as a name ending in `.txt`.
pub open spec fn is_text_entry(archive: Seq<u8>, i: int) -> bool {
    &&& i >= 0
    &&& spec_zip_entry_name(archive, i as nat) matches Some(name)
    &&& has_txt_suffix(name)
}

/// `i` is the first of the `count` entries that is a text entry.
pub open spec fn is_first_text_entry(archive: Seq<u8>, count: nat, i: int) -> bool {
    &&& 0 <= i < count
    &&& is_text_entry(archive, i)
    &&& forall|j: int| 0 <= j < i ==> !is_text_entry(archive, j)
}

/// What taking the report out of the archive answers: the content of the
/// first entry whose name ends in `.txt`.
pub open spec fn archive_text_outcome(archive: Seq<u8>, r: Result<ArchiveText, ArchiveError>) -> bool {
    match spec_zip_entry_count(archive) {
        None => r matches Err(ArchiveError::Zip(_)),
        Some(count) => if exists|i: int| is_first_text_entry(archive, count, i) {
            let i = choose|i: int| is_first_text_entry(archive, count, i);
            match spec_zip_entry_data(archive, i as nat) {
                Some(read) => r matches Ok(t) && entry_text_outcome(read, t),
                None => r matches Err(ArchiveError::Zip(_)),
            }
        } else {
            r matches Err(ArchiveError::NoTextEntry)
        },
    }
}

proof fn lemma_first_text_entry_unique(archive: Seq<u8>, count: nat, i: int)
    requires
        is_first_text_entry(archive, count, i),
    ensures
        (choose|k: int| is_first_text_entry(archive, count, k)) == i,
{
    let k = choose|k: int| is_first_text_entry(archive, count, k);
    assert(is_first_text_entry(archive, count, k));
    if k < i {
        assert(!is_text_entry(archive, k));
    }
    if i < k {
        assert(!is_text_entry(archive, i));
    }
}

/// The text of the yearly report inside the archive: the content of the
/// first entry whose name ends in `.txt`. Entries whose name does not read
/// are passed over. Where reading the entry fails partway, the answer is
/// the bytes read before the failure, with the read's error.
pub fn cot_text_from_archive(archive: &[u8]) -> (r: Result<ArchiveText, ArchiveError>)
    ensures
        archive_text_outcome(archive@, r),
{
    let count = match zip_entry_count(archive) {
        Ok(n) => n,
        Err(e) => return Err(ArchiveError::Zip(e)),
    };
    let mut i: usize = 0;
    while i < count
        invariant
            spec_zip_entry_count(archive@) == Some(count as nat),
            i <= count,
            forall|j: int| 0 <= j < i ==> !is_text_entry(archive@, j),
        decreases count - i,
    {
        let found = match zip_entry_name(archive, i) {
            Ok(name) => ends_with_txt(name.as_str()),
            Err(_) => false,
        };
        assert(found == is_text_entry(archive@, i as int));
        if found {
            proof {
                assert(is_first_text_entry(archive@, count as nat, i as int));
                lemma_first_text_entry_unique(archive@, count as nat, i as int);
            }
            return match zip_entry_data(archive, i) {
                Ok((data, read_error)) => Ok(ArchiveText { data, read_error }),
                Err(e) => Err(ArchiveError::Zip(e)),
            };
        }
        i = i + 1;
    }
    proof {
        assert forall|k: int| is_first_text_entry(archive@, count as nat, k) implies false by {
            assert(k < i);
        }
    }
    Err(ArchiveError::NoTextEntry)
}

/// What taking the first entry out of the archive answers.
pub open spec fn first_entry_outcome(archive: Seq<u8>, year: i64, r: Result<ArchiveText, ArchiveError>) -> bool {
    match spec_zip_entry_count(archive) {
        None => r matches Err(ArchiveError::Zip(_)),
        Some(_) => match spec_zip_entry_data(archive, 0) {
            Some(read) => r matches Ok(t) && entry_text_outcome(read, t),
            None => r == Err::<ArchiveText, ArchiveError>(ArchiveError::MissingFirstEntry(year)),
        },
    }
}

/// The content of the archive's first entry, where the yearly archive keeps
/// its report; `year` names the archive in the error. An archive without
/// entries has no first entry. Where reading the entry fails partway, the
/// answer is the bytes read before the failure, with the read's error.
pub fn first_archive_entry(archive: &[u8], year: i64) -> (r: Result<ArchiveText, ArchiveError>)
    ensures
        first_entry_outcome(archive@, year, r),
        spec_zip_entry_count(archive@) == Some(0nat) ==> r == Err::<ArchiveText, ArchiveError>(
            ArchiveError::MissingFirstEntry(year),
        ),
{
    match zip_entry_count(archive) {
        Ok(_) => {},
        Err(e) => return Err(ArchiveError::Zip(e)),
    }
    match zip_entry_data(archive, 0) {
        Ok((data, read_error)) => Ok(ArchiveText { data, read_error }),
        Err(_) => Err(ArchiveError::MissingFirstEntry(year)),
    }
}

/// The address of the CFTC's yearly archive of financial futures reports.
pub open spec fn cot_archive_url_text(year: int) -> Seq<char> {
    "https://www.cftc.gov/files/dea/history/fut_fin_txt_"@ + decimal_text(year) + ".zip"@
}

/// The address of the CFTC's yearly archive of financial futures reports for
/// `year`.
pub fn cot_archive_url(year: i64) -> (r: String)
    ensures
        r@ == cot_archive_url_text(year as int),
{
    let digits = decimal_string(year);
    let head = concat_text("https://www.cftc.gov/files/dea/history/fut_fin_txt_", digits.as_str());
    concat_text(head.as_str(), ".zip")
}

} // verus!
