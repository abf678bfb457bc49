//! The files of a cache: what can be asked of them, and what the answers mean.
//!
//! The operations of the cache decide what to do with files; they do not touch any. Each names
//! one action at a time, its caller performs that action, and the reply says how it went.

use vstd::prelude::*;

verus! {

/// The place of a file: a directory directly below that of the cache, and a name in it.
pub struct FilePath {
    pub dir: String,
    pub name: String,
}

/// The place of a file, over the characters of its names.
pub struct Place {
    pub dir: Seq<char>,
    pub name: Seq<char>,
}

impl View for FilePath {
    type V = Place;

    open spec fn view(&self) -> Place {
        Place { dir: self.dir@, name: self.name@ }
    }
}

/// What an entry of a directory is.
#[derive(Clone, Copy, Debug, PartialEq, Eq, Structural)]
pub enum EntryKind {
    /// A directory.
    Directory,
    /// Anything but a directory.
    Other,
    /// The entry, or its type, could not be read.
    Unreadable,
}

/// One entry of a directory.
pub struct DirEntry {
    pub name: String,
    pub kind: EntryKind,
}

/// One entry of a directory, over the characters of its name.
pub struct Entry {
    pub name: Seq<char>,
    pub kind: EntryKind,
}

impl View for DirEntry {
    type V = Entry;

    open spec fn view(&self) -> Entry {
        Entry { name: self.name@, kind: self.kind }
    }
}

/// What an operation asks of the disk next.
pub enum DiskAction {
    /// List the directory of the cache.
    ListRoot,
    /// List a directory.
    ListDir(String),
    /// Ask whether a directory exists.
    DirExists(String),
    /// Create a directory.
    CreateDir(String),
    /// Ask for the size of a file.
    FileSize(FilePath),
    /// Ask whether there is a file.
    IsFile(FilePath),
    /// Ask whether there is anything.
    FileExists(FilePath),
    /// Read a file.
    ReadFile(FilePath),
    /// Write a file, in place of what it held before.
    WriteFile(FilePath, Vec<u8>),
    /// Remove a file.
    RemoveFile(FilePath),
}

/// What an operation asks of the disk, over the contents of its parts.
pub enum Action {
    ListRoot,
    ListDir(Seq<char>),
    DirExists(Seq<char>),
    CreateDir(Seq<char>),
    FileSize(Place),
    IsFile(Place),
    FileExists(Place),
    ReadFile(Place),
    WriteFile(Place, Seq<u8>),
    RemoveFile(Place),
}

impl View for DiskAction {
    type V = Action;

    open spec fn view(&self) -> Action {
        match *self {
            DiskAction::ListRoot => Action::ListRoot,
            DiskAction::ListDir(dir) => Action::ListDir(dir@),
            DiskAction::DirExists(dir) => Action::DirExists(dir@),
            DiskAction::CreateDir(dir) => Action::CreateDir(dir@),
            DiskAction::FileSize(path) => Action::FileSize(path@),
            DiskAction::IsFile(path) => Action::IsFile(path@),
            DiskAction::FileExists(path) => Action::FileExists(path@),
            DiskAction::ReadFile(path) => Action::ReadFile(path@),
            DiskAction::WriteFile(path, content) => Action::WriteFile(path@, content@),
            DiskAction::RemoveFile(path) => Action::RemoveFile(path@),
        }
    }
}

/// How an action went.
pub enum DiskReply {
    /// The entries of a directory, in the order in which they were read.
    Listing(Vec<DirEntry>),
    /// The size of a file.
    Size(u64),
    /// The content of a file.
    Content(Vec<u8>),
    /// Whether something exists.
    Answer(bool),
    /// The action was performed.
    Done,
    /// The action failed.
    Failed,
}

/// How an action went, over the contents of its parts.
pub enum Reply {
    Listing(Seq<Entry>),
    Size(u64),
    Content(Seq<u8>),
    Answer(bool),
    Done,
    Failed,
}

/// The entries of a listing.
pub open spec fn entries(listing: Seq<DirEntry>) -> Seq<Entry> {
    listing.map_values(|e: DirEntry| e@)
}

impl View for DiskReply {
    type V = Reply;

    open spec fn view(&self) -> Reply {
        match *self {
            DiskReply::Listing(listing) => Reply::Listing(entries(listing@)),
            DiskReply::Size(size) => Reply::Size(size),
            DiskReply::Content(content) => Reply::Content(content@),
            DiskReply::Answer(answer) => Reply::Answer(answer),
            DiskReply::Done => Reply::Done,
            DiskReply::Failed => Reply::Failed,
        }
    }
}

/// The directories of a cache, each with its files and their contents.
#[verifier::ext_equal]
pub struct Disk {
    pub dirs: Map<Seq<char>, Map<Seq<char>, Seq<u8>>>,
}

impl Disk {
    /// Whether there is a file at `place`.
    pub open spec fn has(self, place: Place) -> bool {
        self.dirs.contains_key(place.dir) && self.dirs[place.dir].contains_key(place.name)
    }

    /// The content of the file at `place`.
    pub open spec fn content(self, place: Place) -> Seq<u8> {
        self.dirs[place.dir][place.name]
    }

    /// The disk with `content` at `place`.
    pub open spec fn with(self, place: Place, content: Seq<u8>) -> Disk {
        Disk { dirs: self.dirs.insert(place.dir, self.dirs[place.dir].insert(place.name, content)) }
    }

    /// The disk without the file at `place`.
    pub open spec fn without(self, place: Place) -> Disk {
        if self.has(place) {
            Disk { dirs: self.dirs.insert(place.dir, self.dirs[place.dir].remove(place.name)) }
        } else {
            self
        }
    }

    /// The disk after `action` was performed on it.
    pub open spec fn after(self, action: Action) -> Disk {
        match action {
            Action::CreateDir(dir) => if self.dirs.contains_key(dir) {
                self
            } else {
                Disk { dirs: self.dirs.insert(dir, Map::empty()) }
            },
            Action::WriteFile(place, content) => if self.dirs.contains_key(place.dir) {
                self.with(place, content)
            } else {
                self
            },
            Action::RemoveFile(place) => self.without(place),
            _ => self,
        }
    }

    /// Whether `reply` is what a disk in working order answers to `action`. The entries of a
    /// directory come in any order, each once; whatever else a directory holds besides
    /// directories (in that of the cache) or files (in those below it) may come with them.
    pub open spec fn answers(self, action: Action, reply: Reply) -> bool {
        match action {
            Action::ListRoot => reply is Listing && lists(
                reply->Listing_0,
                EntryKind::Directory,
                self.dirs.dom(),
            ),
            Action::ListDir(dir) => if self.dirs.contains_key(dir) {
                reply is Listing && lists(
                    reply->Listing_0,
                    EntryKind::Other,
                    self.dirs[dir].dom(),
                )
            } else {
                reply is Failed
            },
            Action::DirExists(dir) => reply == Reply::Answer(self.dirs.contains_key(dir)),
            Action::CreateDir(dir) => if self.dirs.contains_key(dir) {
                reply is Failed
            } else {
                reply is Done
            },
            Action::FileSize(place) => if self.has(place) {
                reply is Size && reply->Size_0 == self.content(place).len()
            } else {
                reply is Failed
            },
            Action::IsFile(place) => reply == Reply::Answer(self.has(place)),
            Action::FileExists(place) => reply == Reply::Answer(self.has(place)),
            Action::ReadFile(place) => if self.has(place) {
                reply == Reply::Content(self.content(place))
            } else {
                reply is Failed
            },
            Action::WriteFile(place, content) => if self.dirs.contains_key(place.dir) {
                reply is Done
            } else {
                reply is Failed
            },
            Action::RemoveFile(place) => if self.has(place) {
                reply is Done
            } else {
                reply is Failed
            },
        }
    }
}

/// Whether the entries of kind `kind` in `listing` are exactly those that `names` names, each once.
pub open spec fn lists(listing: Seq<Entry>, kind: EntryKind, names: Set<Seq<char>>) -> bool {
    &&& forall|i: int|
        0 <= i < listing.len() && (#[trigger] listing[i]).kind == kind ==> names.contains(
            listing[i].name,
        )
    &&& forall|name: Seq<char>| #[trigger]
        names.contains(name) ==> exists|i: int|
            0 <= i < listing.len() && (#[trigger] listing[i]).kind == kind && listing[i].name
                == name
    &&& forall|i: int, j: int|
        0 <= i < j < listing.len() && (#[trigger] listing[i]).kind == kind && (
        #[trigger] listing[j]).kind == kind ==> listing[i].name != listing[j].name
}

/// An operation on the files of a cache: the action that it asks for, none once it is over, and
/// how it goes on after a reply.
pub trait Operation: Sized {
    spec fn action(self) -> Option<Action>;

    spec fn next(self, reply: Reply) -> Self;
}

/// Whether `op`, started on `disk`, gets through with `replies`, each of them what a disk in
/// working order answers, and is over after the last one.
pub open spec fn completes<O: Operation>(op: O, disk: Disk, replies: Seq<Reply>) -> bool
    decreases replies.len(),
{
    match op.action() {
        Some(action) => replies.len() > 0 && disk.answers(action, replies[0]) && completes(
            op.next(replies[0]),
            disk.after(action),
            replies.skip(1),
        ),
        None => replies.len() == 0,
    }
}

/// Whether `op`, started on `disk`, gets as far as `replies` go, each of them what a disk in
/// working order answers.
pub open spec fn follows<O: Operation>(op: O, disk: Disk, replies: Seq<Reply>) -> bool
    decreases replies.len(),
{
    replies.len() == 0 || match op.action() {
        Some(action) => disk.answers(action, replies[0]) && follows(
            op.next(replies[0]),
            disk.after(action),
            replies.skip(1),
        ),
        None => false,
    }
}

/// What `op` has come to after `replies`, and what it has made of `disk`.
pub open spec fn outcome<O: Operation>(op: O, disk: Disk, replies: Seq<Reply>) -> (O, Disk)
    decreases replies.len(),
{
    match op.action() {
        Some(action) => if replies.len() > 0 {
            outcome(op.next(replies[0]), disk.after(action), replies.skip(1))
        } else {
            (op, disk)
        },
        None => (op, disk),
    }
}

/// A copy of some bytes.
pub fn copy_bytes(bytes: &Vec<u8>) -> (r: Vec<u8>)
    ensures
        r@ == bytes@,
{
    let mut r: Vec<u8> = Vec::new();
    r.extend_from_slice(bytes.as_slice());
    assert(r@ =~= bytes@);
    r
}

/// What is asked of the disk is seen for what it is: the same action, with the same names and the
/// same bytes.
pub proof fn law_actions_are_seen_in_full(action: DiskAction)
    ensures
        action is ListRoot ==> action@ is ListRoot,
        action matches DiskAction::ListDir(dir) ==> action@ == Action::ListDir(dir@),
        action matches DiskAction::DirExists(dir) ==> action@ == Action::DirExists(dir@),
        action matches DiskAction::CreateDir(dir) ==> action@ == Action::CreateDir(dir@),
        action matches DiskAction::FileSize(path) ==> action@ == Action::FileSize(
            Place { dir: path.dir@, name: path.name@ },
        ),
        action matches DiskAction::IsFile(path) ==> action@ == Action::IsFile(
            Place { dir: path.dir@, name: path.name@ },
        ),
        action matches DiskAction::FileExists(path) ==> action@ == Action::FileExists(
            Place { dir: path.dir@, name: path.name@ },
        ),
        action matches DiskAction::ReadFile(path) ==> action@ == Action::ReadFile(
            Place { dir: path.dir@, name: path.name@ },
        ),
        action matches DiskAction::WriteFile(path, content) ==> action@ == Action::WriteFile(
            Place { dir: path.dir@, name: path.name@ },
            content@,
        ),
        action matches DiskAction::RemoveFile(path) ==> action@ == Action::RemoveFile(
            Place { dir: path.dir@, name: path.name@ },
        ),
{
}

/// What the disk replies is seen for what it is: the same bytes, and every entry with its name and
/// kind.
pub proof fn law_replies_are_seen_in_full(reply: DiskReply)
    ensures
        reply matches DiskReply::Listing(listing) ==> reply@ is Listing
            && reply@->Listing_0.len() == listing@.len() && forall|k: int|
            0 <= k < listing@.len() ==> (#[trigger] reply@->Listing_0[k]).name == listing@[k].name@
                && reply@->Listing_0[k].kind == listing@[k].kind,
        reply matches DiskReply::Size(size) ==> reply@ == Reply::Size(size),
        reply matches DiskReply::Content(content) ==> reply@ == Reply::Content(content@),
        reply matches DiskReply::Answer(answer) ==> reply@ == Reply::Answer(answer),
        reply is Done ==> reply@ is Done,
        reply is Failed ==> reply@ is Failed,
{
}

} // verus!
