//! The archive writer of the `zip` crate, with what the library relies on.

use std::io::Cursor;
use std::io::Write;
use vstd::prelude::*;
use zip::result::ZipError;
use zip::write::SimpleFileOptions;
use zip::CompressionMethod;
use zip::ZipWriter;

verus! {

/// How the bytes of an entry are stored in an archive.
#[derive(Clone, Copy, Debug, PartialEq, Eq, Structural)]
pub enum Compression {
    /// As they are; this method has no levels.
    Stored,
    /// Deflated.
    Deflated,
}

/// An archive that is being written in memory: a `zip::ZipWriter` over a
/// cursor.
#[verifier::external_body]
pub struct Archive {
    writer: ZipWriter<Cursor<Vec<u8>>>,
}

/// The error of the archive writer, `zip::result::ZipError`.
#[verifier::external_type_specification]
#[verifier::external_body]
pub struct ExZipError(ZipError);

/// The error of byte streams, `std::io::Error`.
#[verifier::external_type_specification]
#[verifier::external_body]
pub struct ExIoError(std::io::Error);

/// The entries that have been written into an archive so far, in order:
/// the name of each and the bytes handed over for it.
pub uninterp spec fn written_entries(archive: Archive) -> Seq<
    (Seq<char>, Seq<u8>),
>;

/// What each entry of an archive was started with, in order: the method,
/// the level and whether it was marked as large.
pub uninterp spec fn entry_settings(archive: Archive) -> Seq<
    (Compression, Option<i64>, bool),
>;

/// Whether an archive, as it stands, lets an entry of the given name be
/// started with the given method, level and mark: the answer of
/// `ZipWriter::start_file`, which writes into memory and so depends on
/// nothing but the writer and what it is given.
pub uninterp spec fn start_accepted(
    archive: Archive,
    name: Seq<char>,
    method: Compression,
    level: Option<i64>,
    large: bool,
) -> bool;

/// How many bytes from the front of `buf` an archive, as it stands, takes
/// into its last entry, if it takes the write at all: the answer of the
/// `write` of `ZipWriter`.
pub uninterp spec fn write_taken(archive: Archive, buf: Seq<u8>) -> Option<nat>;

/// The bytes that an archive comes to when it is closed as it stands, if
/// it can be closed: the answer of `ZipWriter::finish`.
pub uninterp spec fn closed_image(archive: Archive) -> Option<Seq<u8>>;

/// The names of a run of entries.
pub open spec fn names_of(entries: Seq<(Seq<char>, Seq<u8>)>) -> Seq<Seq<char>> {
    entries.map_values(|entry: (Seq<char>, Seq<u8>)| entry.0)
}

/// Starts an archive in memory with `ZipWriter::new` on an empty cursor. It
/// has no entries.
#[verifier::external_body]
pub(crate) fn archive_open() -> (archive: Archive)
    ensures
        written_entries(archive).len() == 0,
        entry_settings(archive).len() == 0,
{
    Archive { writer: ZipWriter::new(Cursor::new(Vec::new())) }
}

/// Starts an entry with `ZipWriter::start_file`, compressed by the given
/// method at the given level and marked as large or not. The call succeeds
/// exactly when the archive accepts the start. Then the archive has one
/// more entry, with the given name, no bytes yet, and these settings. A
/// name that the archive holds already is never accepted.
#[verifier::external_body]
pub(crate) fn archive_start(
    archive: &mut Archive,
    name: &str,
    method: Compression,
    level: Option<i64>,
    large: bool,
) -> (started: Result<(), ZipError>)
    ensures
        started is Ok <==> start_accepted(*old(archive), name@, method, level, large),
        started is Ok ==> !names_of(written_entries(*old(archive))).contains(name@),
        started is Ok ==> written_entries(*final(archive)) == written_entries(*old(archive)).push(
            (name@, Seq::<u8>::empty()),
        ),
        started is Ok ==> entry_settings(*final(archive)) == entry_settings(*old(archive)).push(
            (method, level, large),
        ),
{
    let method = match method {
        Compression::Stored => CompressionMethod::Stored,
        Compression::Deflated => CompressionMethod::Deflated,
    };
    let options = SimpleFileOptions::default().compression_method(method).compression_level(
        level,
    ).large_file(large);
    archive.writer.start_file(name, options)
}

/// Hands bytes to the entry that was started last, with the `write` of
/// `ZipWriter`. The call succeeds exactly when the archive takes the
/// write. Then it says how many bytes from the front of `buf` it took, the
/// last entry has grown by those bytes, and no entry's settings change.
#[verifier::external_body]
pub(crate) fn archive_write(archive: &mut Archive, buf: &[u8]) -> (taken: Result<
    usize,
    std::io::Error,
>)
    ensures
        match taken {
            Ok(n) => write_taken(*old(archive), buf@) == Some(n as nat),
            Err(_) => write_taken(*old(archive), buf@) is None,
        },
        taken matches Ok(n) ==> n <= buf@.len() && written_entries(*old(archive)).len() > 0
            && written_entries(*final(archive)) == written_entries(*old(archive)).drop_last().push(
            (
                written_entries(*old(archive)).last().0,
                written_entries(*old(archive)).last().1 + buf@.take(n as int),
            ),
        ),
        taken is Ok ==> entry_settings(*final(archive)) == entry_settings(*old(archive)),
{
    archive.writer.write(buf)
}

/// Closes the archive with `ZipWriter::finish` and hands out the bytes
/// that the cursor holds. The call succeeds exactly when the archive can
/// be closed, and the bytes are those that it comes to.
#[verifier::external_body]
pub(crate) fn archive_close(archive: Archive) -> (bytes: Result<Vec<u8>, ZipError>)
    ensures
        match bytes {
            Ok(image) => closed_image(archive) == Some(image@),
            Err(_) => closed_image(archive) is None,
        },
{
    archive.writer.finish().map(Cursor::into_inner)
}

} // verus!
