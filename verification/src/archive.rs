//! Opening the archives the viewer browses: ZIP, 7-Zip and Morrowind BSA.
//!
//! Every archive becomes a list of files under normalized paths, in the
//! order the archive lists them.
use vstd::prelude::*;
use std::io::Cursor;
use std::io::Read;
use zip::ZipArchive;
use zip::result::ZipError;
use sevenz_rust2::{ArchiveReader, Password};
use crate::files::vec_entry_views;
use crate::keys::{decimal, decimal_chars};
use crate::paths::{lemma_normalized_idempotent, normalize_path, normalized};
use crate::state::ArchiveLoadStatus;
use crate::text::string_from_chars;

verus! {

#[verifier::external_type_specification]
#[verifier::external_body]
#[verifier::reject_recursive_types(T)]
pub struct ExCursor<T>(Cursor<T>);

#[verifier::external_type_specification]
#[verifier::external_body]
#[verifier::reject_recursive_types(R)]
pub struct ExZipArchive<R>(ZipArchive<R>);

#[verifier::external_type_specification]
#[verifier::external_body]
pub struct ExZipError(ZipError);

#[verifier::external_type_specification]
#[verifier::external_body]
pub struct ExIoError(std::io::Error);

#[verifier::external_type_specification]
#[verifier::external_body]
pub struct ExSevenZipError(sevenz_rust2::Error);

/// Why an archive could not be opened.
pub enum FileError {
    /// The archive could not be downloaded.
    FetchError(String),
    /// The ZIP reader refused the archive or one of its entries.
    UnzipError(String),
    /// The 7-Zip reader refused the archive or one of its entries.
    SevenZipError(String),
    /// The BSA reader refused the archive.
    BsaError(String),
    /// Reading an entry's contents failed.
    IoError(String),
}

/// The text shown for an archive error.
pub open spec fn file_error_text(error: FileError) -> Seq<char> {
    match error {
        FileError::FetchError(m) => "Fetch Error: "@ + m@,
        FileError::UnzipError(m) => "Unzip Error: "@ + m@,
        FileError::SevenZipError(m) => "7-Zip Error: "@ + m@,
        FileError::BsaError(m) => "BSA Error: "@ + m@,
        FileError::IoError(m) => "IO Error: "@ + m@,
    }
}

impl FileError {
    /// The text shown for the error: its kind, then the reader's message.
    pub fn message(&self) -> (r: String)
        ensures
            r@ == file_error_text(*self),
    {
        let (prefix, detail) = match self {
            FileError::FetchError(m) => ("Fetch Error: ", m),
            FileError::UnzipError(m) => ("Unzip Error: ", m),
            FileError::SevenZipError(m) => ("7-Zip Error: ", m),
            FileError::BsaError(m) => ("BSA Error: ", m),
            FileError::IoError(m) => ("IO Error: ", m),
        };
        let mut text = String::from_str(prefix);
        text.append(detail.as_str());
        text
    }
}

/// The progress line while an archive is uploaded.
pub fn upload_phase(file_name: &str) -> (r: String)
    ensures
        r@ == "Uploading "@ + file_name@ + "..."@,
{
    let mut text = String::from_str("Uploading ");
    text.append(file_name);
    text.append("...");
    text
}

/// The refusal of an upload the server answered with an HTTP error status.
pub fn upload_status_error(status: u16) -> (r: FileError)
    ensures
        r matches FileError::FetchError(m) && m@ == "Upload failed with HTTP status "@ + decimal(status as nat),
{
    let mut text = String::from_str("Upload failed with HTTP status ");
    text.append(string_from_chars(&decimal_chars(status as u64)).as_str());
    FileError::FetchError(text)
}

/// What an archive is, by its first bytes.
#[derive(Clone, Copy, Debug, PartialEq, Eq, Structural)]
pub enum ArchiveKind {
    /// A Morrowind BSA: the version word 0x100, little-endian.
    Bsa,
    /// A 7-Zip archive: its six-byte signature.
    SevenZip,
    /// Anything else is read as ZIP.
    Zip,
}

/// The first bytes of a BSA archive.
pub open spec fn bsa_magic() -> Seq<u8> {
    seq![0x00u8, 0x01u8, 0x00u8, 0x00u8]
}

/// The first bytes of a 7-Zip archive.
pub open spec fn seven_zip_magic() -> Seq<u8> {
    seq![0x37u8, 0x7au8, 0xbcu8, 0xafu8, 0x27u8, 0x1cu8]
}

/// The kind of archive that bytes hold.
pub open spec fn archive_kind_of(bytes: Seq<u8>) -> ArchiveKind {
    if bytes.len() >= 4 && bytes.take(4) == bsa_magic() {
        ArchiveKind::Bsa
    } else if bytes.len() >= 6 && bytes.take(6) == seven_zip_magic() {
        ArchiveKind::SevenZip
    } else {
        ArchiveKind::Zip
    }
}

/// Tells the kind of archive from its first bytes.
pub fn archive_kind(bytes: &[u8]) -> (r: ArchiveKind)
    ensures
        r == archive_kind_of(bytes@),
{
    if bytes.len() >= 4 && bytes[0] == 0x00 && bytes[1] == 0x01 && bytes[2] == 0x00 && bytes[3] == 0x00 {
        assert(bytes@.take(4) =~= bsa_magic());
        return ArchiveKind::Bsa;
    }
    assert(bytes@.len() >= 4 ==> bytes@.take(4) != bsa_magic() ==> true);
    if bytes.len() >= 4 {
        assert(bytes@.take(4) != bsa_magic()) by {
            if bytes@.take(4) == bsa_magic() {
                assert(bytes@.take(4)[0] == bytes@[0]);
                assert(bytes@.take(4)[1] == bytes@[1]);
                assert(bytes@.take(4)[2] == bytes@[2]);
                assert(bytes@.take(4)[3] == bytes@[3]);
            }
        }
    }
    if bytes.len() >= 6 && bytes[0] == 0x37 && bytes[1] == 0x7a && bytes[2] == 0xbc && bytes[3] == 0xaf
        && bytes[4] == 0x27 && bytes[5] == 0x1c {
        assert(bytes@.take(6) =~= seven_zip_magic());
        return ArchiveKind::SevenZip;
    }
    if bytes.len() >= 6 {
        assert(bytes@.take(6) != seven_zip_magic()) by {
            if bytes@.take(6) == seven_zip_magic() {
                assert(bytes@.take(6)[0] == bytes@[0]);
                assert(bytes@.take(6)[1] == bytes@[1]);
                assert(bytes@.take(6)[2] == bytes@[2]);
                assert(bytes@.take(6)[3] == bytes@[3]);
                assert(bytes@.take(6)[4] == bytes@[4]);
                assert(bytes@.take(6)[5] == bytes@[5]);
            }
        }
    }
    ArchiveKind::Zip
}

/// One entry as an archive lists it: its stored name, whether it is a
/// regular file, and its contents (empty for what is not a file).
pub struct RawEntry {
    pub name: String,
    pub is_file: bool,
    pub contents: Vec<u8>,
}

/// An entry by value: its name, whether it is a regular file, its contents.
pub open spec fn raw_view(entry: RawEntry) -> (Seq<char>, bool, Seq<u8>) {
    (entry.name@, entry.is_file, entry.contents@)
}

/// Entries by value.
pub open spec fn raw_views(entries: Seq<RawEntry>) -> Seq<(Seq<char>, bool, Seq<u8>)> {
    entries.map_values(|e: RawEntry| raw_view(e))
}

/// The files among listed entries, under normalized paths, in order.
pub open spec fn kept_files(entries: Seq<(Seq<char>, bool, Seq<u8>)>) -> Seq<(Seq<char>, Seq<u8>)>
    decreases entries.len(),
{
    if entries.len() == 0 {
        Seq::empty()
    } else {
        let rest = kept_files(entries.drop_last());
        let last = entries.last();
        if last.1 {
            rest.push((normalized(last.0), last.2))
        } else {
            rest
        }
    }
}

/// Keeps the regular files among listed entries, under normalized paths.
pub fn archive_files(entries: Vec<RawEntry>) -> (r: Vec<(String, Vec<u8>)>)
    ensures
        vec_entry_views(r@) == kept_files(raw_views(entries@)),
{
    let ghost all = raw_views(entries@);
    let mut files: Vec<(String, Vec<u8>)> = Vec::new();
    let mut i: usize = 0;
    while i < entries.len()
        invariant
            i <= entries.len(),
            all == raw_views(entries@),
            vec_entry_views(files@) == kept_files(all.take(i as int)),
        decreases entries.len() - i,
    {
        let entry = &entries[i];
        assert(all.take(i + 1).drop_last() =~= all.take(i as int));
        assert(all.take(i + 1).last() == raw_view(*entry));
        if entry.is_file {
            let path = normalize_path(entry.name.as_str());
            let contents = entry.contents.clone();
            assert(contents@ =~= entry.contents@);
            files.push((path, contents));
            assert(vec_entry_views(files@) =~= vec_entry_views(files@.drop_last()).push(
                (normalized(entry.name@), entry.contents@),
            ));
        }
        i += 1;
    }
    assert(all.take(entries.len() as int) =~= all);
    files
}

/// The entries of a listing (names and whether each is a file) with given contents.
pub open spec fn with_contents(listing: Seq<(Seq<char>, bool)>, contents: Seq<Seq<u8>>) -> Seq<(Seq<char>, bool, Seq<u8>)> {
    Seq::new(listing.len(), |j: int| (listing[j].0, listing[j].1, contents[j]))
}

/// The progress line shown while entry `done` of `total` is extracted.
pub fn progress_text(done: usize, total: usize) -> (r: String)
    ensures
        r@ == "Extracting files... "@ + decimal(done as nat) + seq!['/'] + decimal(total as nat),
{
    let mut text = String::from_str("Extracting files... ");
    text.append(string_from_chars(&decimal_chars(done as u64)).as_str());
    text.append("/");
    text.append(string_from_chars(&decimal_chars(total as u64)).as_str());
    proof {
        reveal_strlit("/");
    }
    text
}

/// Opens a ZIP archive held in memory (`ZipArchive::new`): it opens exactly
/// when the reader accepts the bytes, and the archive keeps the bytes.
#[verifier::external_body]
fn zip_open(bytes: Vec<u8>) -> (r: Result<ZipArchive<Cursor<Vec<u8>>>, ZipError>)
    ensures
        r is Ok <==> zip_readable(bytes@),
        r matches Ok(archive) ==> zip_listing(archive) == zip_opened(bytes@) && zip_source(archive) == bytes@,
{
    ZipArchive::new(Cursor::new(bytes))
}

/// The number of entries of a ZIP archive (`ZipArchive::len`).
#[verifier::external_body]
fn zip_len(archive: &ZipArchive<Cursor<Vec<u8>>>) -> (r: usize)
    ensures
        r == zip_listing(*archive).len(),
{
    archive.len()
}

/// The entries a ZIP archive lists, in its order: each entry's name (`None`
/// when it cannot be decoded) and whether it is a regular file.
pub uninterp spec fn zip_listing(archive: ZipArchive<Cursor<Vec<u8>>>) -> Seq<(Option<Seq<char>>, bool)>;

/// The entries of the archive that `ZipArchive::new` opens from bytes.
pub uninterp spec fn zip_opened(bytes: Seq<u8>) -> Seq<(Option<Seq<char>>, bool)>;

/// Whether `ZipArchive::new` accepts bytes as a ZIP archive.
pub uninterp spec fn zip_readable(bytes: Seq<u8>) -> bool;

/// The bytes an open ZIP archive reads from.
pub uninterp spec fn zip_source(archive: ZipArchive<Cursor<Vec<u8>>>) -> Seq<u8>;

/// Whether entry `index` of the ZIP archive in `bytes` opens for reading
/// (`ZipArchive::by_index` succeeds).
pub uninterp spec fn zip_entry_opens(bytes: Seq<u8>, index: nat) -> bool;

/// Opens entry `index` for reading (`ZipArchive::by_index`) and closes it
/// again; gives whether it opened. The archive's entries and bytes stay.
#[verifier::external_body]
fn zip_open_entry(archive: &mut ZipArchive<Cursor<Vec<u8>>>, index: usize) -> (r: Result<(), ZipError>)
    ensures
        zip_listing(*final(archive)) == zip_listing(*old(archive)),
        zip_source(*final(archive)) == zip_source(*old(archive)),
        r is Ok <==> zip_entry_opens(zip_source(*old(archive)), index as nat),
{
    match archive.by_index(index) {
        Ok(_) => Ok(()),
        Err(error) => Err(error),
    }
}

/// What reading entry `index` of the ZIP archive in `bytes` to its end
/// gives (`ZipArchive::by_index`, then `read_to_end`): its decompressed
/// contents, or `None` when the entry cannot be opened or decompressed.
pub uninterp spec fn zip_entry_contents(bytes: Seq<u8>, index: nat) -> Option<Seq<u8>>;

/// The name of entry `index` (`ZipArchive::name_for_index`): `None` past the
/// last entry, an error when the stored name cannot be decoded.
#[verifier::external_body]
fn zip_entry_name(archive: &ZipArchive<Cursor<Vec<u8>>>, index: usize) -> (r: Option<Result<String, ZipError>>)
    ensures
        r is Some <==> index < zip_listing(*archive).len(),
        r matches Some(Ok(name)) ==> zip_listing(*archive)[index as int].0 == Some(name@),
        r matches Some(Err(_)) ==> zip_listing(*archive)[index as int].0 is None,
{
    match archive.name_for_index(index) {
        None => None,
        Some(Ok(name)) => Some(Ok(name.into_owned())),
        Some(Err(error)) => Some(Err(error)),
    }
}

/// Whether entry `index` is a regular file (`ZipArchive::by_index_data`,
/// then `ZipFileEntry::is_file`); `None` past the last entry.
#[verifier::external_body]
fn zip_entry_is_file(archive: &ZipArchive<Cursor<Vec<u8>>>, index: usize) -> (r: Option<bool>)
    ensures
        r is Some <==> index < zip_listing(*archive).len(),
        r matches Some(is_file) ==> zip_listing(*archive)[index as int].1 == is_file,
{
    match archive.by_index_data(index) {
        Ok(entry) => Some(entry.is_file()),
        Err(_) => None,
    }
}

/// Why the contents of a ZIP entry could not be read.
pub enum ZipReadError {
    /// The archive refused to open the entry.
    Zip(ZipError),
    /// Decompressing the entry failed.
    Io(std::io::Error),
}

/// The decompressed contents of one ZIP entry: `ZipArchive::by_index`, then
/// the entry read to its end. Reading moves the archive's reader, not its
/// list of entries or its bytes.
#[verifier::external_body]
fn zip_read_entry(archive: &mut ZipArchive<Cursor<Vec<u8>>>, index: usize) -> (r: Result<Vec<u8>, ZipReadError>)
    ensures
        zip_listing(*final(archive)) == zip_listing(*old(archive)),
        zip_source(*final(archive)) == zip_source(*old(archive)),
        r is Ok <==> zip_entry_contents(zip_source(*old(archive)), index as nat) is Some,
        r matches Ok(contents) ==> zip_entry_contents(zip_source(*old(archive)), index as nat) == Some(contents@),
{
    match archive.by_index(index) {
        Err(error) => Err(ZipReadError::Zip(error)),
        Ok(mut file) => {
            let mut contents = Vec::new();
            match file.read_to_end(&mut contents) {
                Ok(_) => Ok(contents),
                Err(error) => Err(ZipReadError::Io(error)),
            }
        },
    }
}

/// The debug form of a ZIP error.
#[verifier::external_body]
fn zip_error_text(error: &ZipError) -> (r: String) {
    format!("{:?}", error)
}

/// The display form of an I/O error.
#[verifier::external_body]
fn io_error_text(error: &std::io::Error) -> (r: String) {
    format!("{}", error)
}

/// A listing whose names were all decoded.
pub open spec fn names_decoded(listing: Seq<(Option<Seq<char>>, bool)>) -> bool {
    forall|j: int| 0 <= j < listing.len() ==> (#[trigger] listing[j]).0 is Some
}

/// The decoded names of a listing, with the file flags.
pub open spec fn decoded(listing: Seq<(Option<Seq<char>>, bool)>) -> Seq<(Seq<char>, bool)> {
    Seq::new(listing.len(), |j: int| (listing[j].0.unwrap(), listing[j].1))
}

/// Every regular file of a ZIP listing can be read to its end.
pub open spec fn zip_files_readable(bytes: Seq<u8>, listing: Seq<(Option<Seq<char>>, bool)>) -> bool {
    forall|j: int| 0 <= j < listing.len() && listing[j].1 ==> (#[trigger] zip_entry_contents(bytes, j as nat)) is Some
}

/// The contents of the entries of a ZIP listing: what each regular file
/// reads to, and nothing for the others.
pub open spec fn zip_contents(bytes: Seq<u8>, listing: Seq<(Option<Seq<char>>, bool)>) -> Seq<Seq<u8>> {
    Seq::new(
        listing.len(),
        |j: int|
            if listing[j].1 {
                zip_entry_contents(bytes, j as nat).unwrap()
            } else {
                Seq::empty()
            },
    )
}

/// Every entry of a ZIP listing, directories included, opens for reading.
pub open spec fn zip_entries_open(bytes: Seq<u8>, listing: Seq<(Option<Seq<char>>, bool)>) -> bool {
    forall|j: int| 0 <= j < listing.len() ==> #[trigger] zip_entry_opens(bytes, j as nat)
}

/// Whether a ZIP archive can be extracted: the reader accepts it, every
/// entry opens, every entry name is decoded, and every regular file can be
/// read to its end.
pub open spec fn zip_extractable(bytes: Seq<u8>) -> bool {
    &&& zip_readable(bytes)
    &&& zip_entries_open(bytes, zip_opened(bytes))
    &&& names_decoded(zip_opened(bytes))
    &&& zip_files_readable(bytes, zip_opened(bytes))
}

/// The files a ZIP archive yields: its regular files under normalized
/// paths, in the archive's order, each with its decompressed contents.
pub open spec fn zip_files(bytes: Seq<u8>) -> Seq<(Seq<char>, Seq<u8>)> {
    let listing = zip_opened(bytes);
    kept_files(with_contents(decoded(listing), zip_contents(bytes, listing)))
}

/// Extracts every regular file of a ZIP archive under its normalized path,
/// in the archive's order, with the contents the ZIP reader decompressed.
/// It succeeds exactly when the archive can be extracted.
pub fn unzip(zip_bytes: Vec<u8>, status: &mut ArchiveLoadStatus) -> (r: Result<Vec<(String, Vec<u8>)>, FileError>)
    ensures
        final(status).error == old(status).error,
        r is Ok <==> zip_extractable(zip_bytes@),
        match r {
            Ok(files) => {
                &&& final(status).phase is None
                &&& vec_entry_views(files@) == zip_files(zip_bytes@)
            },
            Err(error) => error is UnzipError || error is IoError,
        },
{
    let ghost bytes = zip_bytes@;
    status.phase = Some(String::from_str("Opening archive..."));
    let mut archive = match zip_open(zip_bytes) {
        Ok(archive) => archive,
        Err(error) => return Err(FileError::UnzipError(zip_error_text(&error))),
    };
    let ghost listing = zip_listing(archive);
    let count = zip_len(&archive);
    let mut entries: Vec<RawEntry> = Vec::new();
    let mut i: usize = 0;
    while i < count
        invariant
            i <= count,
            count == listing.len(),
            listing == zip_opened(bytes),
            zip_listing(archive) == listing,
            zip_source(archive) == bytes,
            bytes == zip_bytes@,
            zip_readable(bytes),
            status.error == old(status).error,
            entries.len() == i,
            forall|j: int| 0 <= j < i ==> listing[j].0 == Some((#[trigger] entries@[j]).name@)
                && entries@[j].is_file == listing[j].1
                && entries@[j].contents@ == zip_contents(bytes, listing)[j]
                && (listing[j].1 ==> zip_entry_contents(bytes, j as nat) is Some)
                && zip_entry_opens(bytes, j as nat),
        decreases count - i,
    {
        status.phase = Some(progress_text(i + 1, count));
        match zip_open_entry(&mut archive, i) {
            Ok(()) => {},
            Err(error) => {
                assert(!zip_entries_open(bytes, listing)) by {
                    let j = i as int;
                    assert(0 <= j < listing.len() && !zip_entry_opens(bytes, j as nat));
                }
                assert(!zip_extractable(bytes));
                return Err(FileError::UnzipError(zip_error_text(&error)));
            },
        }
        let name = match zip_entry_name(&archive, i).unwrap() {
            Ok(name) => name,
            Err(error) => {
                assert(listing[i as int].0 is None);
                assert(!names_decoded(listing));
                assert(!zip_extractable(bytes));
                return Err(FileError::UnzipError(zip_error_text(&error)));
            },
        };
        let is_file = zip_entry_is_file(&archive, i).unwrap();
        let contents = if is_file {
            let read = zip_read_entry(&mut archive, i);
            proof {
                if read is Err {
                    assert(listing[i as int].1 && zip_entry_contents(bytes, (i as int) as nat) is None);
                    assert(!zip_files_readable(bytes, listing)) by {
                        let j = i as int;
                        assert(0 <= j < listing.len() && listing[j].1 && !(zip_entry_contents(bytes, j as nat) is Some));
                    }
                    assert(!zip_extractable(bytes));
                }
            }
            match read {
                Ok(contents) => contents,
                Err(ZipReadError::Zip(error)) => return Err(FileError::UnzipError(zip_error_text(&error))),
                Err(ZipReadError::Io(error)) => return Err(FileError::IoError(io_error_text(&error))),
            }
        } else {
            Vec::new()
        };
        entries.push(RawEntry { name, is_file, contents });
        i += 1;
    }
    status.phase = None;
    let ghost contents = zip_contents(bytes, listing);
    proof {
        assert forall|j: int| 0 <= j < listing.len() implies (#[trigger] listing[j]).0 is Some by {
            assert(listing[j].0 == Some(entries@[j].name@));
        }
        assert forall|j: int| 0 <= j < listing.len() implies #[trigger] zip_entry_opens(bytes, j as nat) by {
            assert(entries@[j].is_file == listing[j].1);
        }
        assert forall|j: int| 0 <= j < listing.len() && listing[j].1 implies (#[trigger] zip_entry_contents(
            bytes,
            j as nat,
        )) is Some by {
            assert(entries@[j].is_file == listing[j].1);
        }
        assert(raw_views(entries@) =~= with_contents(decoded(listing), contents)) by {
            assert forall|j: int| 0 <= j < entries.len() implies raw_views(entries@)[j] == with_contents(
                decoded(listing),
                contents,
            )[j] by {
                assert(listing[j].0 == Some(entries@[j].name@));
            }
        }
    }
    let files = archive_files(entries);
    Ok(files)
}

/// An open 7-Zip archive. The reader's type bounds its source by std's
/// `Read + Seek`, whose declaration the verifier refuses, so the reader with
/// the archive's entries is held in a field the verifier does not see.
#[verifier::external_body]
pub struct SevenZipArchive {
    reader: ArchiveReader<Cursor<Vec<u8>>>,
}

/// The entries an open 7-Zip archive lists, in order: each entry's name and
/// whether it is a directory.
pub uninterp spec fn seven_zip_listing(archive: SevenZipArchive) -> Seq<(Seq<char>, bool)>;

/// The entries of the archive that `ArchiveReader::new` opens from bytes.
pub uninterp spec fn seven_zip_opened(bytes: Seq<u8>) -> Seq<(Seq<char>, bool)>;

/// Whether `ArchiveReader::new` accepts bytes as a 7-Zip archive (with no password).
pub uninterp spec fn seven_zip_readable(bytes: Seq<u8>) -> bool;

/// The bytes an open 7-Zip archive reads from.
pub uninterp spec fn seven_zip_source(archive: SevenZipArchive) -> Seq<u8>;

/// What `ArchiveReader::read_file` gives for the entry named `name` of the
/// 7-Zip archive in `bytes`: its decompressed contents, or `None` when it
/// cannot be found or decompressed.
pub uninterp spec fn seven_zip_entry_contents(bytes: Seq<u8>, name: Seq<char>) -> Option<Seq<u8>>;

/// Opens a 7-Zip archive held in memory, with no password
/// (`ArchiveReader::new`): it opens exactly when the reader accepts the
/// bytes, and the archive keeps the bytes.
#[verifier::external_body]
fn seven_zip_open(bytes: Vec<u8>) -> (r: Result<SevenZipArchive, sevenz_rust2::Error>)
    ensures
        r is Ok <==> seven_zip_readable(bytes@),
        r matches Ok(archive) ==> seven_zip_listing(archive) == seven_zip_opened(bytes@)
            && seven_zip_source(archive) == bytes@,
{
    match ArchiveReader::new(Cursor::new(bytes), Password::empty()) {
        Ok(reader) => Ok(SevenZipArchive { reader }),
        Err(error) => Err(error),
    }
}

/// The entries a 7-Zip archive lists, in order: each entry's name and
/// whether it is a directory (`ArchiveReader::archive`, its `files`).
#[verifier::external_body]
fn seven_zip_entries(archive: &SevenZipArchive) -> (r: Vec<(String, bool)>)
    ensures
        r@.map_values(|e: (String, bool)| (e.0@, e.1)) == seven_zip_listing(*archive),
{
    archive.reader.archive().files.iter().map(|entry| (entry.name.clone(), entry.is_directory)).collect()
}

/// The decompressed contents of the entry with a given name
/// (`ArchiveReader::read_file`). Reading does not change the list of entries
/// or the bytes.
#[verifier::external_body]
fn seven_zip_read(archive: &mut SevenZipArchive, name: &str) -> (r: Result<Vec<u8>, sevenz_rust2::Error>)
    ensures
        seven_zip_listing(*final(archive)) == seven_zip_listing(*old(archive)),
        seven_zip_source(*final(archive)) == seven_zip_source(*old(archive)),
        r is Ok <==> seven_zip_entry_contents(seven_zip_source(*old(archive)), name@) is Some,
        r matches Ok(contents) ==> seven_zip_entry_contents(seven_zip_source(*old(archive)), name@) == Some(contents@),
{
    archive.reader.read_file(name)
}

/// The display form of a 7-Zip error.
#[verifier::external_body]
fn seven_zip_error_text(error: &sevenz_rust2::Error) -> (r: String) {
    format!("{}", error)
}

/// The entries of a 7-Zip listing with the flag of being a regular file:
/// whatever is not a directory.
pub open spec fn file_flags(listing: Seq<(Seq<char>, bool)>) -> Seq<(Seq<char>, bool)> {
    Seq::new(listing.len(), |j: int| (listing[j].0, !listing[j].1))
}

/// The contents of the entries of a 7-Zip listing: what each entry that is
/// not a directory reads to, and nothing for directories.
pub open spec fn seven_zip_contents(bytes: Seq<u8>, listing: Seq<(Seq<char>, bool)>) -> Seq<Seq<u8>> {
    Seq::new(
        listing.len(),
        |j: int|
            if !listing[j].1 {
                seven_zip_entry_contents(bytes, listing[j].0).unwrap()
            } else {
                Seq::empty()
            },
    )
}

/// Whether a 7-Zip archive can be extracted: the reader accepts it and
/// every entry that is not a directory can be read.
pub open spec fn seven_zip_extractable(bytes: Seq<u8>) -> bool {
    let listing = seven_zip_opened(bytes);
    &&& seven_zip_readable(bytes)
    &&& forall|j: int| 0 <= j < listing.len() && !listing[j].1 ==> (#[trigger] seven_zip_entry_contents(
        bytes,
        listing[j].0,
    )) is Some
}

/// The files a 7-Zip archive yields: its entries that are not directories,
/// under normalized paths, in the archive's order, each with its contents.
pub open spec fn seven_zip_files(bytes: Seq<u8>) -> Seq<(Seq<char>, Seq<u8>)> {
    let listing = seven_zip_opened(bytes);
    kept_files(with_contents(file_flags(listing), seven_zip_contents(bytes, listing)))
}

/// Extracts every entry of a 7-Zip archive that is not a directory under its
/// normalized path, in the archive's order, with the contents the 7-Zip
/// reader decompressed. It succeeds exactly when the archive can be extracted.
pub fn extract_7z(archive_bytes: Vec<u8>, status: &mut ArchiveLoadStatus) -> (r: Result<Vec<(String, Vec<u8>)>, FileError>)
    ensures
        final(status).error == old(status).error,
        r is Ok <==> seven_zip_extractable(archive_bytes@),
        match r {
            Ok(files) => {
                &&& final(status).phase is None
                &&& vec_entry_views(files@) == seven_zip_files(archive_bytes@)
            },
            Err(error) => error is SevenZipError,
        },
{
    let ghost bytes = archive_bytes@;
    status.phase = Some(String::from_str("Opening 7-Zip archive..."));
    let mut archive = match seven_zip_open(archive_bytes) {
        Ok(archive) => archive,
        Err(error) => return Err(FileError::SevenZipError(seven_zip_error_text(&error))),
    };
    let listed = seven_zip_entries(&archive);
    let ghost listing = listed@.map_values(|e: (String, bool)| (e.0@, e.1));
    assert(listing == seven_zip_opened(bytes));
    let mut entries: Vec<RawEntry> = Vec::new();
    let mut i: usize = 0;
    while i < listed.len()
        invariant
            i <= listed.len(),
            listing == listed@.map_values(|e: (String, bool)| (e.0@, e.1)),
            listing == seven_zip_opened(bytes),
            seven_zip_source(archive) == bytes,
            bytes == archive_bytes@,
            seven_zip_readable(bytes),
            status.error == old(status).error,
            entries.len() == i,
            forall|j: int| 0 <= j < i ==> (#[trigger] entries@[j]).name@ == listing[j].0
                && entries@[j].is_file == !listing[j].1
                && entries@[j].contents@ == seven_zip_contents(bytes, listing)[j]
                && (!listing[j].1 ==> seven_zip_entry_contents(bytes, listing[j].0) is Some),
        decreases listed.len() - i,
    {
        let name = listed[i].0.clone();
        let is_file = !listed[i].1;
        assert(listing[i as int] == (listed@[i as int].0@, listed@[i as int].1));
        assert(name@ == listing[i as int].0);
        let contents = if is_file {
            let read = seven_zip_read(&mut archive, name.as_str());
            match read {
                Ok(contents) => contents,
                Err(error) => {
                    assert(!listing[i as int].1 && seven_zip_entry_contents(bytes, listing[i as int].0) is None);
                    assert(!seven_zip_extractable(bytes));
                    return Err(FileError::SevenZipError(seven_zip_error_text(&error)));
                },
            }
        } else {
            Vec::new()
        };
        assert(contents@ == seven_zip_contents(bytes, listing)[i as int]);
        let ghost prev = entries@;
        entries.push(RawEntry { name, is_file, contents });
        assert forall|j: int| 0 <= j < i + 1 implies (#[trigger] entries@[j]).name@ == listing[j].0
            && entries@[j].is_file == !listing[j].1
            && entries@[j].contents@ == seven_zip_contents(bytes, listing)[j]
            && (!listing[j].1 ==> seven_zip_entry_contents(bytes, listing[j].0) is Some) by {
            if j < i {
                assert(entries@[j] == prev[j]);
            }
        }
        i += 1;
    }
    status.phase = None;
    let ghost contents = seven_zip_contents(bytes, listing);
    assert(raw_views(entries@) =~= with_contents(file_flags(listing), contents));
    assert forall|j: int| 0 <= j < listing.len() && !listing[j].1 implies (#[trigger] seven_zip_entry_contents(
        bytes,
        listing[j].0,
    )) is Some by {
        assert(entries@[j].name@ == listing[j].0);
    }
    let files = archive_files(entries);
    Ok(files)
}

/// One entry of a BSA archive: its stored name, when the archive keeps
/// names, and its contents.
pub struct BsaEntry {
    pub name: Option<Vec<u8>>,
    pub contents: Vec<u8>,
}

/// The text that `String::from_utf8_lossy` decodes from bytes.
pub uninterp spec fn utf8_lossy(bytes: Seq<u8>) -> Seq<char>;

/// The characters of ASCII bytes.
pub open spec fn ascii_chars(bytes: Seq<u8>) -> Seq<char> {
    bytes.map_values(|b: u8| b as char)
}

/// Decodes bytes as UTF-8, with U+FFFD for what is not UTF-8
/// (`String::from_utf8_lossy`). ASCII bytes decode to their characters.
#[verifier::external_body]
fn lossy_text(bytes: &[u8]) -> (r: String)
    ensures
        r@ == utf8_lossy(bytes@),
        (forall|i: int| 0 <= i < bytes@.len() ==> bytes@[i] < 128) ==> r@ == ascii_chars(bytes@),
{
    String::from_utf8_lossy(bytes).into_owned()
}

/// The named entries of a BSA archive, under normalized paths, in order.
pub open spec fn bsa_kept(entries: Seq<BsaEntry>) -> Seq<(Seq<char>, Seq<u8>)>
    decreases entries.len(),
{
    if entries.len() == 0 {
        Seq::empty()
    } else {
        let rest = bsa_kept(entries.drop_last());
        match entries.last().name {
            Some(name) => rest.push((normalized(utf8_lossy(name@)), entries.last().contents@)),
            None => rest,
        }
    }
}

/// The refusal of a BSA archive that keeps no file names.
pub open spec fn unnamed_bsa_message() -> Seq<char> {
    "BSA archives without stored file names cannot be browsed"@
}

/// Turns the entries a BSA reader listed into files under normalized paths;
/// an archive without stored names cannot be browsed.
pub fn bsa_files(has_names: bool, entries: Vec<BsaEntry>, status: &mut ArchiveLoadStatus) -> (r: Result<
    Vec<(String, Vec<u8>)>,
    FileError,
>)
    ensures
        final(status).error == old(status).error,
        match r {
            Ok(files) => {
                &&& has_names
                &&& final(status).phase is None
                &&& vec_entry_views(files@) == bsa_kept(entries@)
            },
            Err(error) => {
                &&& !has_names
                &&& error matches FileError::BsaError(m) && m@ == unnamed_bsa_message()
                &&& final(status).phase == old(status).phase
            },
        },
{
    if !has_names {
        return Err(FileError::BsaError(String::from_str("BSA archives without stored file names cannot be browsed")));
    }
    let count = entries.len();
    let mut files: Vec<(String, Vec<u8>)> = Vec::new();
    let mut i: usize = 0;
    while i < count
        invariant
            i <= count,
            count == entries.len(),
            status.error == old(status).error,
            vec_entry_views(files@) == bsa_kept(entries@.take(i as int)),
        decreases count - i,
    {
        status.phase = Some(progress_text(i + 1, count));
        let entry = &entries[i];
        assert(entries@.take(i + 1).drop_last() =~= entries@.take(i as int));
        match &entry.name {
            Some(name) => {
                let text = lossy_text(name.as_slice());
                let path = normalize_path(text.as_str());
                let contents = entry.contents.clone();
                assert(contents@ =~= entry.contents@);
                files.push((path, contents));
                assert(vec_entry_views(files@) =~= vec_entry_views(files@.drop_last()).push(
                    (normalized(utf8_lossy(name@)), entry.contents@),
                ));
            },
            None => {},
        }
        i += 1;
    }
    assert(entries@.take(count as int) =~= entries@);
    status.phase = None;
    Ok(files)
}

/// What opening an archive gives: its files, or, for a BSA archive, its
/// bytes for the BSA reader.
pub enum Extracted {
    Files(Vec<(String, Vec<u8>)>),
    Bsa(Vec<u8>),
}

/// Extracts every file of a ZIP or 7-Zip archive under its normalized path,
/// telling the kind by the first bytes; a BSA archive is handed back for the
/// BSA reader.
pub fn extract_archive(archive_bytes: Vec<u8>, status: &mut ArchiveLoadStatus) -> (r: Result<Extracted, FileError>)
    ensures
        final(status).error == old(status).error,
        archive_kind_of(archive_bytes@) == ArchiveKind::Bsa ==> {
            &&& r matches Ok(Extracted::Bsa(bytes)) && bytes@ == archive_bytes@
            &&& final(status).phase matches Some(phase) && phase@ == "Opening BSA archive..."@
        },
        archive_kind_of(archive_bytes@) == ArchiveKind::SevenZip ==> {
            &&& r is Ok <==> seven_zip_extractable(archive_bytes@)
            &&& match r {
                Ok(Extracted::Files(files)) => {
                    &&& final(status).phase is None
                    &&& vec_entry_views(files@) == seven_zip_files(archive_bytes@)
                },
                Ok(Extracted::Bsa(_)) => false,
                Err(error) => error is SevenZipError,
            }
        },
        archive_kind_of(archive_bytes@) == ArchiveKind::Zip ==> {
            &&& r is Ok <==> zip_extractable(archive_bytes@)
            &&& match r {
                Ok(Extracted::Files(files)) => {
                    &&& final(status).phase is None
                    &&& vec_entry_views(files@) == zip_files(archive_bytes@)
                },
                Ok(Extracted::Bsa(_)) => false,
                Err(error) => error is UnzipError || error is IoError,
            }
        },
{
    match archive_kind(archive_bytes.as_slice()) {
        ArchiveKind::Bsa => {
            status.phase = Some(String::from_str("Opening BSA archive..."));
            Ok(Extracted::Bsa(archive_bytes))
        },
        ArchiveKind::SevenZip => match extract_7z(archive_bytes, status) {
            Ok(files) => Ok(Extracted::Files(files)),
            Err(error) => Err(error),
        },
        ArchiveKind::Zip => match unzip(archive_bytes, status) {
            Ok(files) => Ok(Extracted::Files(files)),
            Err(error) => Err(error),
        },
    }
}

/// Every file a ZIP or 7-Zip archive yields sits under a canonical path:
/// normalizing its path again gives the same path.
pub proof fn lemma_archive_paths_canonical(entries: Seq<(Seq<char>, bool, Seq<u8>)>)
    ensures
        forall|j: int| 0 <= j < kept_files(entries).len() ==> normalized(#[trigger] kept_files(entries)[j].0)
            == kept_files(entries)[j].0,
    decreases entries.len(),
{
    if entries.len() > 0 {
        lemma_archive_paths_canonical(entries.drop_last());
        lemma_normalized_idempotent(entries.last().0);
        let rest = kept_files(entries.drop_last());
        assert forall|j: int| 0 <= j < kept_files(entries).len() implies normalized(
            #[trigger] kept_files(entries)[j].0,
        ) == kept_files(entries)[j].0 by {
            if j < rest.len() {
                assert(kept_files(entries)[j] == rest[j]);
            }
        }
    }
}

/// Every file a BSA archive yields sits under a canonical path.
pub proof fn lemma_bsa_paths_canonical(entries: Seq<BsaEntry>)
    ensures
        forall|j: int| 0 <= j < bsa_kept(entries).len() ==> normalized(#[trigger] bsa_kept(entries)[j].0)
            == bsa_kept(entries)[j].0,
    decreases entries.len(),
{
    if entries.len() > 0 {
        lemma_bsa_paths_canonical(entries.drop_last());
        match entries.last().name {
            Some(name) => lemma_normalized_idempotent(utf8_lossy(name@)),
            None => {},
        }
        let rest = bsa_kept(entries.drop_last());
        assert forall|j: int| 0 <= j < bsa_kept(entries).len() implies normalized(
            #[trigger] bsa_kept(entries)[j].0,
        ) == bsa_kept(entries)[j].0 by {
            if j < rest.len() {
                assert(bsa_kept(entries)[j] == rest[j]);
            }
        }
    }
}

} // verus!
