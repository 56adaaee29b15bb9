//! Files that have been received in full and wait to be packaged.

use std::sync::Arc;
use vstd::prelude::*;
use crate::text::{chars_of, string_of};

verus! {

/// A name longer than this many characters is shortened for display.
pub const MAX_DISPLAY_LEN: usize = 30;

/// A file that has been received in full: its name, the size that was
/// declared for it, and its bytes.
#[derive(Debug)]
pub struct File {
    pub size: usize,
    pub name: String,
    pub bytes: Vec<u8>,
}

/// What a file holds, as plain values.
pub struct FileView {
    pub size: nat,
    pub name: Seq<char>,
    pub bytes: Seq<u8>,
}

impl View for File {
    type V = FileView;

    open spec fn view(&self) -> FileView {
        FileView { size: self.size as nat, name: self.name@, bytes: self.bytes@ }
    }
}

/// Whether `at` is the place of the last full stop in `name`.
pub open spec fn is_last_dot(name: Seq<char>, at: int) -> bool {
    &&& 0 <= at < name.len()
    &&& name[at] == '.'
    &&& forall|j: int| at < j < name.len() ==> name[j] != '.'
}

/// Where the extension of `name` starts: at its last full stop, or at its
/// end when it has none.
pub open spec fn extension_start(name: Seq<char>) -> int {
    if exists|at: int| is_last_dot(name, at) {
        choose|at: int| is_last_dot(name, at)
    } else {
        name.len() as int
    }
}

/// The marker that stands for the part left out of a shortened name.
pub open spec fn ellipsis() -> Seq<char> {
    seq!['[', '.', '.', '.', ']']
}

/// The name as it is displayed. A name of at most [`MAX_DISPLAY_LEN`]
/// characters is displayed whole. Of a longer one the extension is kept,
/// and so much of the beginning that beginning, marker and extension
/// together have [`MAX_DISPLAY_LEN`] characters; nothing of the beginning
/// is kept when marker and extension alone reach that length.
pub open spec fn display_form(name: Seq<char>) -> Seq<char> {
    if name.len() <= MAX_DISPLAY_LEN {
        name
    } else {
        let extension = name.skip(extension_start(name));
        let room = MAX_DISPLAY_LEN - extension.len() - ellipsis().len();
        let kept = if room > 0 {
            name.take(room)
        } else {
            Seq::empty()
        };
        kept + ellipsis() + extension
    }
}

/// A name has at most one last full stop.
pub proof fn lemma_last_dot_unique(name: Seq<char>, a: int, b: int)
    requires
        is_last_dot(name, a),
        is_last_dot(name, b),
    ensures
        a == b,
{
}

/// A displayed name is never longer than the name itself, and a name with
/// an extension of fewer than 25 characters is displayed in at most
/// [`MAX_DISPLAY_LEN`] characters.
pub proof fn lemma_display_form_len(name: Seq<char>)
    ensures
        name.len() <= MAX_DISPLAY_LEN ==> display_form(name) == name,
        name.len() - extension_start(name) + ellipsis().len() < MAX_DISPLAY_LEN
            ==> display_form(name).len() <= MAX_DISPLAY_LEN,
{
    if exists|at: int| is_last_dot(name, at) {
        let at = choose|at: int| is_last_dot(name, at);
        assert(0 <= extension_start(name) < name.len());
    }
}

/// Finds where the extension of a name starts.
pub fn find_extension(name: &Vec<char>) -> (at: usize)
    ensures
        at == extension_start(name@),
        at <= name.len(),
{
    let mut at: usize = name.len();
    while at > 0
        invariant
            at <= name.len(),
            forall|j: int| at <= j < name.len() ==> name@[j] != '.',
        decreases at,
    {
        at -= 1;
        if name[at] == '.' {
            assert(is_last_dot(name@, at as int));
            proof {
                lemma_last_dot_unique(name@, at as int, extension_start(name@));
            }
            return at;
        }
    }
    assert(forall|p: int| !is_last_dot(name@, p));
    name.len()
}

/// The form in which `name` is displayed.
pub fn display_name(name: &str) -> (shown: String)
    ensures
        shown@ == display_form(name@),
{
    let chars = chars_of(name);
    if chars.len() <= MAX_DISPLAY_LEN {
        return string_of(&chars);
    }
    let start = find_extension(&chars);
    let extension_len: usize = chars.len() - start;
    let room: usize = if extension_len < MAX_DISPLAY_LEN - 5 {
        MAX_DISPLAY_LEN - extension_len - 5
    } else {
        0
    };
    let mut shown: Vec<char> = Vec::new();
    let mut i: usize = 0;
    while i < room
        invariant
            i <= room <= chars.len(),
            shown@ == chars@.take(i as int),
        decreases room - i,
    {
        shown.push(chars[i]);
        assert(chars@.take(i + 1) =~= chars@.take(i as int).push(chars@[i as int]));
        i += 1;
    }
    shown.push('[');
    shown.push('.');
    shown.push('.');
    shown.push('.');
    shown.push(']');
    let ghost head = chars@.take(room as int) + ellipsis();
    assert(shown@ =~= head);
    let mut j: usize = start;
    while j < chars.len()
        invariant
            start <= j <= chars.len(),
            shown@ == head + chars@.subrange(start as int, j as int),
        decreases chars.len() - j,
    {
        shown.push(chars[j]);
        assert(chars@.subrange(start as int, j + 1) =~= chars@.subrange(
            start as int,
            j as int,
        ).push(chars@[j as int]));
        assert(shown@ =~= head + chars@.subrange(start as int, j + 1));
        j += 1;
    }
    assert(chars@.subrange(start as int, chars.len() as int) =~= chars@.skip(start as int));
    assert(chars@.take(0) =~= Seq::<char>::empty());
    string_of(&shown)
}

impl File {
    /// A file with the given name, declared size and bytes.
    pub fn new(name: String, size: usize, bytes: Vec<u8>) -> (file: File)
        ensures
            file@ == (FileView { size: size as nat, name: name@, bytes: bytes@ }),
    {
        File { size, name, bytes }
    }

    /// The name of the file as it is displayed; the archive entry always
    /// carries the full name.
    pub fn display_name(&self) -> (shown: String)
        ensures
            shown@ == display_form(self@.name),
    {
        display_name(self.name.as_str())
    }
}

/// The sum of the declared sizes of a run of files.
pub open spec fn total_size(files: Seq<FileView>) -> nat
    decreases files.len(),
{
    if files.len() == 0 {
        0
    } else {
        total_size(files.drop_last()) + files.last().size
    }
}

/// Another handle on a shared file, made with `Arc::clone`: it points to
/// the same file.
#[verifier::external_body]
pub(crate) fn share(file: &Arc<File>) -> (other: Arc<File>)
    ensures
        other == *file,
{
    Arc::clone(file)
}

/// The views of a run of shared files.
pub open spec fn views_of(files: Seq<Arc<File>>) -> Seq<FileView> {
    files.map_values(|file: Arc<File>| file@)
}

/// The files that wait to be packaged, in the order in which they came.
pub struct StagingStore {
    files: Vec<Arc<File>>,
}

impl View for StagingStore {
    type V = Seq<FileView>;

    closed spec fn view(&self) -> Seq<FileView> {
        views_of(self.files@)
    }
}

impl StagingStore {
    /// An empty store.
    pub fn new() -> (store: Self)
        ensures
            store@ == Seq::<FileView>::empty(),
    {
        let store = StagingStore { files: Vec::new() };
        assert(store@ =~= Seq::<FileView>::empty());
        store
    }

    /// Adds a file behind the ones that are already there.
    pub fn push(&mut self, file: File)
        ensures
            final(self)@ == old(self)@.push(file@),
    {
        let shared = Arc::new(file);
        self.files.push(shared);
        assert(final(self)@ =~= old(self)@.push(file@));
    }

    /// The number of files in the store.
    pub fn len(&self) -> (n: usize)
        ensures
            n == self@.len(),
    {
        self.files.len()
    }

    /// The files that are in the store now, in order. The handles stay
    /// good while files are added to the store afterwards.
    pub fn snapshot(&self) -> (files: Vec<Arc<File>>)
        ensures
            views_of(files@) == self@,
    {
        let mut files: Vec<Arc<File>> = Vec::new();
        let mut i: usize = 0;
        while i < self.files.len()
            invariant
                i <= self.files.len(),
                files@ == self.files@.take(i as int),
            decreases self.files.len() - i,
        {
            files.push(share(&self.files[i]));
            assert(self.files@.take(i + 1) =~= self.files@.take(i as int).push(
                self.files@[i as int],
            ));
            i += 1;
        }
        assert(self.files@.take(i as int) =~= self.files@);
        files
    }
}

/// The sum of the declared sizes of `files`, or the largest machine size
/// when the sum is beyond it.
pub fn aggregate_size(files: &Vec<Arc<File>>) -> (sum: usize)
    ensures
        sum == if total_size(views_of(files@)) <= usize::MAX {
            total_size(views_of(files@))
        } else {
            usize::MAX as nat
        },
{
    let ghost views = views_of(files@);
    let mut sum: usize = 0;
    let mut i: usize = 0;
    assert(views.take(0) =~= Seq::<FileView>::empty());
    while i < files.len()
        invariant
            i <= files.len(),
            views == views_of(files@),
            sum == if total_size(views.take(i as int)) <= usize::MAX {
                total_size(views.take(i as int))
            } else {
                usize::MAX as nat
            },
        decreases files.len() - i,
    {
        assert(views.take(i + 1).drop_last() =~= views.take(i as int));
        assert(views.take(i + 1).last() == files@[i as int]@);
        sum = sum.saturating_add(files[i].size);
        i += 1;
    }
    assert(views.take(i as int) =~= views);
    sum
}

} // verus!
