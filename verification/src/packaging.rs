//! Packaging: the staged files go into one archive, entry by entry, while
//! a tracker counts the bytes and reports progress on the packaging signal.

use std::sync::Arc;
use vstd::prelude::*;
use vstd::slice::slice_subrange;
use crate::progress::{advanced, ProgressTracker};
use crate::pump::DirtySignal;
use crate::staging::{aggregate_size, total_size, views_of, File, FileView};
use crate::zipper::{
    archive_close, archive_open, archive_start, archive_write, closed_image, entry_settings,
    names_of, start_accepted, write_taken, written_entries, Archive, Compression,
};

verus! {

/// The compression method of every entry.
pub const COMPRESSION: Compression = Compression::Deflated;

/// The compression level of every entry.
pub const COMPRESSION_LEVEL: i64 = 8;

/// An archive whose files add up to more bytes than this needs the format's
/// large-file variant: four gibibytes.
pub const LARGE_FILE_BYTES: u64 = 0x1_0000_0000;

/// An archive with more entries than this needs the large-file variant.
pub const LARGE_FILE_ENTRIES: usize = 65536;

/// Why packaging failed.
#[derive(Clone, Copy, Debug, PartialEq, Eq, Structural)]
pub enum PackagingError {
    /// An entry could not be started.
    Start,
    /// Bytes could not be written into an entry.
    Write,
    /// The archive took none of the bytes that were left to write.
    WriteZero,
    /// The archive could not be closed.
    Finish,
}

/// Whether files of the given total size and number need the large-file
/// variant of the archive format.
pub open spec fn spec_needs_large_file(total: usize, count: usize) -> bool {
    total > LARGE_FILE_BYTES || count > LARGE_FILE_ENTRIES
}

/// Whether files of the given total size and number need the large-file
/// variant of the archive format.
#[verifier::when_used_as_spec(spec_needs_large_file)]
pub fn needs_large_file(total: usize, count: usize) -> (large: bool)
    ensures
        large == spec_needs_large_file(total, count),
{
    total as u64 > LARGE_FILE_BYTES || count > LARGE_FILE_ENTRIES
}

/// The entry that a file makes in an archive: its full name and its bytes.
pub open spec fn entry_of(file: FileView) -> (Seq<char>, Seq<u8>) {
    (file.name, file.bytes)
}

/// The entries that a run of files makes in an archive, in order.
pub open spec fn entries_of(files: Seq<FileView>) -> Seq<(Seq<char>, Seq<u8>)> {
    files.map_values(|file: FileView| entry_of(file))
}

/// The number of bytes that a run of files holds in all.
pub open spec fn total_bytes(files: Seq<FileView>) -> nat
    decreases files.len(),
{
    if files.len() == 0 {
        0
    } else {
        total_bytes(files.drop_last()) + files.last().bytes.len()
    }
}

/// What an entry is started with: the method and the level of every
/// entry, and the mark for the large-file variant.
pub open spec fn setting_for(large: bool) -> (Compression, Option<i64>, bool) {
    (COMPRESSION, Some(COMPRESSION_LEVEL), large)
}

/// The settings of `count` entries that were all started alike.
pub open spec fn started_alike(count: int, setting: (Compression, Option<i64>, bool)) -> Seq<
    (Compression, Option<i64>, bool),
> {
    Seq::new(count as nat, |j: int| setting)
}

/// Whether a run of files is packaged in the large-file variant: by the
/// sum of the declared sizes, as far as a machine size holds it, and by the
/// number of files.
pub open spec fn packaged_large(files: Seq<FileView>) -> bool {
    let sum = if total_size(files) <= usize::MAX {
        total_size(files)
    } else {
        usize::MAX as nat
    };
    sum > LARGE_FILE_BYTES || files.len() > LARGE_FILE_ENTRIES
}

/// A run of entries after the last of them has grown by `more` bytes.
pub open spec fn grown(entries: Seq<(Seq<char>, Seq<u8>)>, more: Seq<u8>) -> Seq<
    (Seq<char>, Seq<u8>),
> {
    if entries.len() == 0 {
        entries
    } else {
        entries.drop_last().push((entries.last().0, entries.last().1 + more))
    }
}

/// Whether no two files of a run have the same name.
pub open spec fn distinct_names(files: Seq<FileView>) -> bool {
    forall|a: int, b: int|
        0 <= a < b < files.len() ==> (#[trigger] files[a]).name != (#[trigger] files[b]).name
}

/// Whether an archive holds exactly the given entries, started with the
/// given settings.
pub open spec fn holds(
    archive: Archive,
    entries: Seq<(Seq<char>, Seq<u8>)>,
    settings: Seq<(Compression, Option<i64>, bool)>,
) -> bool {
    archive.entries() == entries && archive.settings() == settings
}

/// Whether an archive that holds the given entries refuses to start an
/// entry of the given name with the given setting.
pub open spec fn start_refused(
    entries: Seq<(Seq<char>, Seq<u8>)>,
    settings: Seq<(Compression, Option<i64>, bool)>,
    name: Seq<char>,
    setting: (Compression, Option<i64>, bool),
) -> bool {
    exists|archive: Archive| #[trigger]
        holds(archive, entries, settings) && !start_accepted(
            archive,
            name,
            setting.0,
            setting.1,
            setting.2,
        )
}

/// Whether an archive that holds the given entries refuses to take the
/// bytes `rest` into its last entry.
pub open spec fn write_refused(
    entries: Seq<(Seq<char>, Seq<u8>)>,
    settings: Seq<(Compression, Option<i64>, bool)>,
    rest: Seq<u8>,
) -> bool {
    exists|archive: Archive| #[trigger]
        holds(archive, entries, settings) && write_taken(archive, rest) is None
}

/// Whether an archive that holds the given entries takes none of the
/// bytes `rest`, though it does not refuse them.
pub open spec fn write_stalled(
    entries: Seq<(Seq<char>, Seq<u8>)>,
    settings: Seq<(Compression, Option<i64>, bool)>,
    rest: Seq<u8>,
) -> bool {
    exists|archive: Archive| #[trigger]
        holds(archive, entries, settings) && write_taken(archive, rest) == Some(0nat)
}

/// Whether an archive that holds the given entries cannot be closed.
pub open spec fn close_refused(
    entries: Seq<(Seq<char>, Seq<u8>)>,
    settings: Seq<(Compression, Option<i64>, bool)>,
) -> bool {
    exists|archive: Archive| #[trigger]
        holds(archive, entries, settings) && closed_image(archive) is None
}

/// Whether `image` is what an archive that holds the given entries comes
/// to when it is closed.
pub open spec fn closes_to(
    entries: Seq<(Seq<char>, Seq<u8>)>,
    settings: Seq<(Compression, Option<i64>, bool)>,
    image: Seq<u8>,
) -> bool {
    exists|archive: Archive| #[trigger]
        holds(archive, entries, settings) && closed_image(archive) == Some(image)
}

/// Whether the writing of `bytes` into the last of the given entries ends
/// with `error`: after some of the bytes have been taken, the archive
/// refuses the rest, or takes none of it.
pub open spec fn write_fails(
    entries: Seq<(Seq<char>, Seq<u8>)>,
    settings: Seq<(Compression, Option<i64>, bool)>,
    bytes: Seq<u8>,
    error: PackagingError,
) -> bool {
    exists|k: int|
        0 <= k < bytes.len() && match error {
            PackagingError::Write => write_refused(
                grown(entries, #[trigger] bytes.take(k)),
                settings,
                bytes.skip(k),
            ),
            PackagingError::WriteZero => write_stalled(
                grown(entries, bytes.take(k)),
                settings,
                bytes.skip(k),
            ),
            _ => false,
        }
}

/// Whether the adding of `file` to the given entries ends with `error`:
/// the archive refuses to start the entry, or the writing of its bytes
/// fails.
pub open spec fn add_fails(
    entries: Seq<(Seq<char>, Seq<u8>)>,
    settings: Seq<(Compression, Option<i64>, bool)>,
    file: FileView,
    setting: (Compression, Option<i64>, bool),
    error: PackagingError,
) -> bool {
    if error == PackagingError::Start {
        start_refused(entries, settings, file.name, setting)
    } else {
        write_fails(
            entries.push((file.name, Seq::<u8>::empty())),
            settings.push(setting),
            file.bytes,
            error,
        )
    }
}

/// Whether the adding of `files`, one after the other, to an archive that
/// holds `entries` ends with `error`: the files before some file have
/// been added, and the adding of that file fails so.
pub open spec fn run_fails(
    entries: Seq<(Seq<char>, Seq<u8>)>,
    settings: Seq<(Compression, Option<i64>, bool)>,
    files: Seq<FileView>,
    setting: (Compression, Option<i64>, bool),
    error: PackagingError,
) -> bool {
    exists|i: int|
        0 <= i < files.len() && add_fails(
            entries + entries_of(#[trigger] files.take(i)),
            settings + started_alike(i, setting),
            files[i],
            setting,
            error,
        )
}

impl Archive {
    /// The entries written so far, in order: the name of each and its
    /// bytes.
    pub open spec fn entries(&self) -> Seq<(Seq<char>, Seq<u8>)> {
        written_entries(*self)
    }

    /// What each entry was started with, in order: the method, the level
    /// and the mark for the large-file variant.
    pub open spec fn settings(&self) -> Seq<(Compression, Option<i64>, bool)> {
        entry_settings(*self)
    }

    /// An archive in memory without entries.
    pub fn new() -> (archive: Self)
        ensures
            archive.entries() == Seq::<(Seq<char>, Seq<u8>)>::empty(),
            archive.settings() == Seq::<(Compression, Option<i64>, bool)>::empty(),
    {
        let archive = archive_open();
        assert(archive.entries() =~= Seq::<(Seq<char>, Seq<u8>)>::empty());
        assert(archive.settings() =~= Seq::<(Compression, Option<i64>, bool)>::empty());
        archive
    }

    /// Writes once into the entry that was started last, counts what was
    /// taken, and reports the progress on `sink` when it lies on a
    /// reporting boundary. Returns the number of bytes taken from the front
    /// of `buf`. It fails exactly when the archive refuses the write.
    pub fn write(
        &mut self,
        buf: &[u8],
        tracker: &mut ProgressTracker,
        sink: &DirtySignal<u8>,
    ) -> (taken: Result<usize, PackagingError>)
        ensures
            final(tracker).total_size() == old(tracker).total_size(),
            final(tracker).written() >= old(tracker).written(),
            match taken {
                Ok(n) => {
                    &&& write_taken(*old(self), buf@) == Some(n as nat)
                    &&& n <= buf@.len()
                    &&& old(self).entries().len() > 0
                    &&& final(self).entries() == old(self).entries().drop_last().push(
                        (
                            old(self).entries().last().0,
                            old(self).entries().last().1 + buf@.take(n as int),
                        ),
                    )
                    &&& final(self).settings() == old(self).settings()
                    &&& final(tracker).written() == if old(tracker).written() + n <= usize::MAX {
                        old(tracker).written() + n
                    } else {
                        usize::MAX as int
                    }
                },
                Err(error) => {
                    &&& error == PackagingError::Write
                    &&& write_taken(*old(self), buf@) is None
                    &&& final(tracker).written() == old(tracker).written()
                },
            },
    {
        match archive_write(self, buf) {
            Ok(n) => {
                if let Some(progress) = tracker.record(n) {
                    sink.raise(progress);
                }
                Ok(n)
            },
            Err(_) => Err(PackagingError::Write),
        }
    }

    /// Writes all of `bytes` into the entry that was started last, in as
    /// many steps as the archive takes them in. Nothing is written when
    /// there are no bytes. It fails where the archive, after it has taken
    /// some of the bytes, refuses the rest or takes none of it.
    pub fn write_all(
        &mut self,
        bytes: &[u8],
        tracker: &mut ProgressTracker,
        sink: &DirtySignal<u8>,
    ) -> (done: Result<(), PackagingError>)
        ensures
            final(tracker).total_size() == old(tracker).total_size(),
            final(tracker).written() >= old(tracker).written(),
            match done {
                Ok(_) => {
                    &&& final(tracker).written() == advanced(
                        old(tracker).written(),
                        bytes@.len(),
                    )
                    &&& final(self).settings() == old(self).settings()
                    &&& final(self).entries() == grown(old(self).entries(), bytes@)
                    &&& bytes@.len() > 0 ==> old(self).entries().len() > 0
                },
                Err(error) => write_fails(
                    old(self).entries(),
                    old(self).settings(),
                    bytes@,
                    error,
                ),
            },
    {
        let mut offset: usize = 0;
        proof {
            tracker.lemma_counts_fit();
            let entries = self.entries();
            assert(bytes@.take(0) =~= Seq::<u8>::empty());
            if entries.len() > 0 {
                assert(entries.last().1 + bytes@.take(0) =~= entries.last().1);
                assert(grown(entries, bytes@.take(0)) =~= entries);
            }
        }
        while offset < bytes.len()
            invariant
                offset <= bytes.len(),
                tracker.total_size() == old(tracker).total_size(),
                tracker.written() >= old(tracker).written(),
                tracker.written() == advanced(old(tracker).written(), offset as nat),
                self.settings() == old(self).settings(),
                self.entries() == grown(old(self).entries(), bytes@.take(offset as int)),
                offset > 0 ==> old(self).entries().len() > 0,
            decreases bytes.len() - offset,
        {
            let rest = slice_subrange(bytes, offset, bytes.len());
            let ghost at_call = *self;
            proof {
                assert(rest@ =~= bytes@.skip(offset as int));
                assert(holds(
                    at_call,
                    grown(old(self).entries(), bytes@.take(offset as int)),
                    old(self).settings(),
                ));
            }
            let n = match self.write(rest, tracker, sink) {
                Ok(n) => n,
                Err(error) => {
                    assert(write_refused(
                        grown(old(self).entries(), bytes@.take(offset as int)),
                        old(self).settings(),
                        bytes@.skip(offset as int),
                    ));
                    return Err(error);
                },
            };
            if n == 0 {
                assert(write_stalled(
                    grown(old(self).entries(), bytes@.take(offset as int)),
                    old(self).settings(),
                    bytes@.skip(offset as int),
                ));
                return Err(PackagingError::WriteZero);
            }
            proof {
                let first = old(self).entries();
                let grown_to = offset + n;
                assert(first.len() > 0);
                assert(first.last().1 + bytes@.take(offset as int) + rest@.take(n as int)
                    =~= first.last().1 + bytes@.take(grown_to));
                assert(self.entries() =~= grown(first, bytes@.take(grown_to)));
            }
            offset = offset + n;
        }
        assert(bytes@.take(offset as int) =~= bytes@);
        Ok(())
    }

    /// Adds a file as a new entry under its full name, with all its bytes,
    /// by the method and at the level of every entry and with the given
    /// mark for the large-file variant. The entry is started exactly when
    /// the archive accepts the start, which it never does for a name that
    /// it holds already; after that only the writing of the bytes can fail.
    pub fn add(
        &mut self,
        file: &File,
        large: bool,
        tracker: &mut ProgressTracker,
        sink: &DirtySignal<u8>,
    ) -> (done: Result<(), PackagingError>)
        ensures
            final(tracker).total_size() == old(tracker).total_size(),
            final(tracker).written() >= old(tracker).written(),
            done == Err::<(), PackagingError>(PackagingError::Start) <==> !start_accepted(
                *old(self),
                file@.name,
                COMPRESSION,
                Some(COMPRESSION_LEVEL),
                large,
            ),
            names_of(old(self).entries()).contains(file@.name) ==> done == Err::<
                (),
                PackagingError,
            >(PackagingError::Start),
            match done {
                Ok(_) => {
                    &&& final(self).entries() == old(self).entries().push(entry_of(file@))
                    &&& final(self).settings() == old(self).settings().push(setting_for(large))
                    &&& final(tracker).written() == advanced(
                        old(tracker).written(),
                        file@.bytes.len(),
                    )
                    &&& !names_of(old(self).entries()).contains(file@.name)
                },
                Err(error) => {
                    &&& add_fails(
                        old(self).entries(),
                        old(self).settings(),
                        file@,
                        setting_for(large),
                        error,
                    )
                    &&& error == PackagingError::Start ==> final(tracker).written() == old(
                        tracker,
                    ).written()
                },
            },
    {
        let ghost at_call = *self;
        assert(holds(at_call, old(self).entries(), old(self).settings()));
        match archive_start(self, file.name.as_str(), COMPRESSION, Some(COMPRESSION_LEVEL), large) {
            Ok(_) => {},
            Err(_) => {
                assert(start_refused(
                    old(self).entries(),
                    old(self).settings(),
                    file@.name,
                    setting_for(large),
                ));
                return Err(PackagingError::Start);
            },
        }
        let done = self.write_all(file.bytes.as_slice(), tracker, sink);
        proof {
            if done is Ok {
                let started = old(self).entries().push((file@.name, Seq::<u8>::empty()));
                assert(Seq::<u8>::empty() + file.bytes@ =~= file.bytes@);
                assert(started.drop_last() =~= old(self).entries());
                assert(grown(started, file.bytes@) =~= old(self).entries().push(entry_of(file@)));
            }
        }
        done
    }

    /// Adds every file of `files` as an entry, in order, each as
    /// [`Self::add`] does. It fails where the adding of one of the files
    /// fails, after the files before it have been added.
    pub fn add_all(
        &mut self,
        files: &Vec<Arc<File>>,
        large: bool,
        tracker: &mut ProgressTracker,
        sink: &DirtySignal<u8>,
    ) -> (done: Result<(), PackagingError>)
        ensures
            final(tracker).total_size() == old(tracker).total_size(),
            final(tracker).written() >= old(tracker).written(),
            files@.len() == 0 ==> done is Ok,
            match done {
                Ok(_) => {
                    &&& final(self).entries() == old(self).entries() + entries_of(
                        views_of(files@),
                    )
                    &&& final(self).settings() == old(self).settings() + started_alike(
                        files@.len() as int,
                        setting_for(large),
                    )
                    &&& final(tracker).written() == advanced(
                        old(tracker).written(),
                        total_bytes(views_of(files@)),
                    )
                    &&& distinct_names(views_of(files@))
                },
                Err(error) => run_fails(
                    old(self).entries(),
                    old(self).settings(),
                    views_of(files@),
                    setting_for(large),
                    error,
                ),
            },
    {
        let ghost views = views_of(files@);
        let ghost setting = setting_for(large);
        let mut i: usize = 0;
        proof {
            tracker.lemma_counts_fit();
            assert(views.take(0) =~= Seq::<FileView>::empty());
            assert(self.entries() =~= old(self).entries() + entries_of(views.take(0)));
            assert(self.settings() =~= old(self).settings() + started_alike(0, setting));
        }
        while i < files.len()
            invariant
                i <= files.len(),
                views == views_of(files@),
                setting == setting_for(large),
                tracker.total_size() == old(tracker).total_size(),
                tracker.written() >= old(tracker).written(),
                tracker.written() == advanced(
                    old(tracker).written(),
                    total_bytes(views.take(i as int)),
                ),
                self.entries() == old(self).entries() + entries_of(views.take(i as int)),
                self.settings() == old(self).settings() + started_alike(i as int, setting),
                distinct_names(views.take(i as int)),
            decreases files.len() - i,
        {
            assert(views[i as int] == files@[i as int]@);
            let ghost held = self.entries();
            match self.add(&files[i], large, tracker, sink) {
                Ok(_) => {},
                Err(error) => {
                    assert(add_fails(
                        old(self).entries() + entries_of(views.take(i as int)),
                        old(self).settings() + started_alike(i as int, setting),
                        views[i as int],
                        setting,
                        error,
                    ));
                    return Err(error);
                },
            }
            proof {
                assert(entries_of(views.take(i + 1)) =~= entries_of(views.take(i as int)).push(
                    entry_of(files@[i as int]@),
                ));
                assert(views.take(i + 1).drop_last() =~= views.take(i as int));
                assert(views.take(i + 1).last() == files@[i as int]@);
                assert(self.entries() =~= old(self).entries() + entries_of(views.take(i + 1)));
                assert(self.settings() =~= old(self).settings() + started_alike(i + 1, setting));
                let upto = views.take(i + 1);
                assert forall|a: int, b: int| 0 <= a < b < upto.len() implies (#[trigger] upto[a]).name
                    != (#[trigger] upto[b]).name by {
                    if b < i {
                        assert(views.take(i as int)[a].name != views.take(i as int)[b].name);
                    } else {
                        let at = old(self).entries().len() + a;
                        assert(names_of(held)[at] == views[a].name);
                    }
                }
            }
            i += 1;
        }
        assert(views.take(i as int) =~= views);
        Ok(())
    }

    /// Closes the archive and hands out the bytes that it comes to. It
    /// fails exactly when the archive cannot be closed.
    pub fn finish(self) -> (bytes: Result<Vec<u8>, PackagingError>)
        ensures
            match bytes {
                Ok(image) => closed_image(self) == Some(image@),
                Err(error) => error == PackagingError::Finish && closed_image(self) is None,
            },
    {
        match archive_close(self) {
            Ok(bytes) => Ok(bytes),
            Err(_) => Err(PackagingError::Finish),
        }
    }
}

/// Packages `files` into one archive and hands out its bytes: the bytes
/// that an archive comes to which holds every file as an entry under its
/// full name, in order, and nothing else, each entry started by the method
/// and at the level of every entry, and in the large-file variant exactly
/// when the sum of the declared sizes or the number of files asks for it.
/// The progress of the bytes written is reported on `sink`. It fails with
/// the error and at the place at which the archive refuses a step: the
/// start of an entry, a write, or the closing. Two files of the same name
/// never go into one archive.
pub fn package(files: &Vec<Arc<File>>, sink: &DirtySignal<u8>) -> (bytes: Result<
    Vec<u8>,
    PackagingError,
>)
    ensures
        !distinct_names(views_of(files@)) ==> bytes is Err,
        match bytes {
            Ok(image) => closes_to(
                entries_of(views_of(files@)),
                started_alike(
                    files@.len() as int,
                    setting_for(packaged_large(views_of(files@))),
                ),
                image@,
            ),
            Err(error) => if error == PackagingError::Finish {
                close_refused(
                    entries_of(views_of(files@)),
                    started_alike(
                        files@.len() as int,
                        setting_for(packaged_large(views_of(files@))),
                    ),
                )
            } else {
                run_fails(
                    Seq::empty(),
                    Seq::empty(),
                    views_of(files@),
                    setting_for(packaged_large(views_of(files@))),
                    error,
                )
            },
        },
{
    let total = aggregate_size(files);
    let large = needs_large_file(total, files.len());
    assert(large == packaged_large(views_of(files@)));
    let mut tracker = ProgressTracker::new(total);
    let mut archive = Archive::new();
    match archive.add_all(files, large, &mut tracker, sink) {
        Ok(_) => {},
        Err(error) => {
            return Err(error);
        },
    }
    let ghost filled = archive;
    proof {
        assert(filled.entries() =~= entries_of(views_of(files@)));
        assert(filled.settings() =~= started_alike(files@.len() as int, setting_for(large)));
        assert(holds(
            filled,
            entries_of(views_of(files@)),
            started_alike(files@.len() as int, setting_for(large)),
        ));
    }
    archive.finish()
}

} // verus!
