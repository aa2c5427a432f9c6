//! Reading a zip archive through the `zip` crate.
//!
//! What an archive holds is a function of its bytes. The names below stand
//! for what the `zip` crate finds in them; the wrappers hand it out piece by
//! piece.
use vstd::prelude::*;
use vstd::string::*;

verus! {

/// An open archive of the `zip` crate.
#[verifier::external_type_specification]
#[verifier::external_body]
#[verifier::reject_recursive_types(R)]
pub struct ExZipArchive<R>(zip::ZipArchive<R>);

/// std's reader over bytes in memory.
#[verifier::external_type_specification]
#[verifier::external_body]
#[verifier::reject_recursive_types(T)]
pub struct ExCursor<T>(std::io::Cursor<T>);

/// An archive in memory.
pub type Archive = zip::ZipArchive<std::io::Cursor<Vec<u8>>>;

/// What an archive says of one of its entries.
#[derive(Debug)]
pub struct Head {
    pub name: String,
    /// The Unix mode, if the entry has one.
    pub unix_mode: Option<u32>,
    pub is_dir: bool,
    /// The size that the entry claims to have when unpacked.
    pub size: u64,
}

/// The head of an entry, in the terms of the contracts.
pub struct HeadView {
    pub name: Seq<char>,
    pub unix_mode: Option<u32>,
    pub is_dir: bool,
    pub size: u64,
}

impl View for Head {
    type V = HeadView;

    open spec fn view(&self) -> HeadView {
        HeadView {
            name: self.name@,
            unix_mode: self.unix_mode,
            is_dir: self.is_dir,
            size: self.size,
        }
    }
}

/// What was found of an entry, in the terms of the contracts.
pub open spec fn head_view(head: Result<Head, String>) -> Result<HeadView, Seq<char>> {
    match head {
        Ok(head) => Ok(head@),
        Err(message) => Err(message@),
    }
}

/// How many entries `ZipArchive::new` finds in `bytes`, or the message of the
/// error for bytes that are no archive.
pub uninterp spec fn zip_count(bytes: Seq<u8>) -> Result<nat, Seq<char>>;

/// What `ZipArchive::by_index` says of the entry at `index` of the archive in
/// `bytes`, or the message of the error with which it refuses it.
pub uninterp spec fn zip_head(bytes: Seq<u8>, index: int) -> Result<HeadView, Seq<char>>;

/// The entries of the archive in `bytes`, or the message of the error for
/// bytes that are no archive.
pub open spec fn zip_entries(bytes: Seq<u8>) -> Result<
    Seq<Result<HeadView, Seq<char>>>,
    Seq<char>,
> {
    match zip_count(bytes) {
        Ok(count) => Ok(Seq::new(count, |index: int| zip_head(bytes, index))),
        Err(message) => Err(message),
    }
}

/// The bytes that an open archive reads from.
pub uninterp spec fn archive_bytes(archive: zip::ZipArchive<std::io::Cursor<Vec<u8>>>) -> Seq<u8>;

/// What the entry at `index` of the archive in `bytes` gives when it is read:
/// its bytes, and the message of the error with which they end, if they end
/// with one.
pub uninterp spec fn entry_stream(bytes: Seq<u8>, index: int) -> (Seq<u8>, Option<Seq<char>>);

/// What is read of a stream of bytes up to a limit: the bytes up to there, or
/// all of them if there are fewer, unless they end with an error.
pub open spec fn read_up_to(stream: (Seq<u8>, Option<Seq<char>>), limit: u64) -> Result<
    Seq<u8>,
    Seq<char>,
> {
    if limit <= stream.0.len() {
        Ok(stream.0.take(limit as int))
    } else {
        match stream.1 {
            None => Ok(stream.0),
            Some(message) => Err(message),
        }
    }
}

/// `zip::ZipArchive::new`. The contract says that the outcome is a function
/// of the bytes, and that an open archive reads from just these.
#[verifier::external_body]
pub(crate) fn open_archive(bytes: Vec<u8>) -> (outcome: Result<
    zip::ZipArchive<std::io::Cursor<Vec<u8>>>,
    String,
>)
    ensures
        match outcome {
            Ok(archive) => archive_bytes(archive) == bytes@ && zip_count(bytes@) is Ok,
            Err(message) => zip_count(bytes@) == Err::<nat, Seq<char>>(message@),
        },
{
    zip::ZipArchive::new(std::io::Cursor::new(bytes)).map_err(|e| e.to_string())
}

/// `zip::ZipArchive::len`: the number of entries that were found when the
/// archive was opened.
#[verifier::external_body]
pub(crate) fn archive_len(archive: &zip::ZipArchive<std::io::Cursor<Vec<u8>>>) -> (len: usize)
    ensures
        zip_count(archive_bytes(*archive)) matches Ok(count) ==> len == count,
{
    archive.len()
}

/// `zip::ZipArchive::by_index` with the `name`, `unix_mode`, `is_dir` and
/// `size` of the entry. The contract says that they are a function of the
/// archive's bytes and the index, and that looking does not change the archive.
#[verifier::external_body]
pub(crate) fn entry_head(
    archive: &mut zip::ZipArchive<std::io::Cursor<Vec<u8>>>,
    index: usize,
) -> (outcome: Result<Head, String>)
    requires
        zip_count(archive_bytes(*old(archive))) matches Ok(count) && index < count,
    ensures
        archive_bytes(*final(archive)) == archive_bytes(*old(archive)),
        match outcome {
            Ok(head) => zip_head(archive_bytes(*old(archive)), index as int) == Ok::<
                HeadView,
                Seq<char>,
            >(head@),
            Err(message) => zip_head(archive_bytes(*old(archive)), index as int) == Err::<
                HeadView,
                Seq<char>,
            >(message@),
        },
{
    let entry = archive.by_index(index).map_err(|e| e.to_string())?;
    Ok(Head {
        name: entry.name().to_string(),
        unix_mode: entry.unix_mode(),
        is_dir: entry.is_dir(),
        size: entry.size(),
    })
}

/// Reads an entry: `zip::ZipArchive::by_index`, then std's `Read::take` and
/// `Read::read_to_end`. The contract says that an entry is one stream of bytes,
/// a function of the archive's bytes and the index, which may end with an error
/// (an entry that cannot be opened is empty and ends with that); that the bytes
/// up to the limit are read of it, and the error is met only where the bytes
/// before it do not reach the limit; and that reading does not change the
/// archive.
#[verifier::external_body]
pub(crate) fn read_entry(
    archive: &mut zip::ZipArchive<std::io::Cursor<Vec<u8>>>,
    index: usize,
    limit: u64,
) -> (outcome: Result<Vec<u8>, String>)
    requires
        zip_count(archive_bytes(*old(archive))) matches Ok(count) && index < count,
        limit > 0,
    ensures
        archive_bytes(*final(archive)) == archive_bytes(*old(archive)),
        match outcome {
            Ok(data) => read_up_to(
                entry_stream(archive_bytes(*old(archive)), index as int),
                limit,
            ) == Ok::<Seq<u8>, Seq<char>>(data@),
            Err(message) => read_up_to(
                entry_stream(archive_bytes(*old(archive)), index as int),
                limit,
            ) == Err::<Seq<u8>, Seq<char>>(message@),
        },
{
    let entry = archive.by_index(index).map_err(|e| e.to_string())?;
    let mut data = Vec::new();
    std::io::Read::read_to_end(&mut std::io::Read::take(entry, limit), &mut data)
        .map_err(|e| e.to_string())?;
    Ok(data)
}

} // verus!
