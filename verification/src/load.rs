//! Finding the pieces that are on disk when the cache starts.

use crate::checksum::{checksum_matches, checksum_of};
use crate::disk::{
    entries, Action, DirEntry, DiskAction, DiskReply, Entry, EntryKind, FilePath, Operation, Place,
    Reply,
};
use crate::paths::{checksum_place, named_piece, piece_of_file_name, piece_path, piece_place};
use crate::primitives::{PieceIndex, PIECE_SIZE};
use crate::read::CacheFault;
use vstd::prelude::*;

verus! {

/// A file that is named like a piece.
pub struct Candidate {
    pub name: Seq<char>,
    pub index: u64,
}

/// The names of the directories in `listing`, in order.
pub open spec fn directories(listing: Seq<Entry>) -> Seq<Seq<char>>
    decreases listing.len(),
{
    if listing.len() == 0 {
        seq![]
    } else {
        let before = directories(listing.drop_last());
        if listing.last().kind == EntryKind::Directory {
            before.push(listing.last().name)
        } else {
            before
        }
    }
}

/// The files in `listing` that are named like pieces, in order.
pub open spec fn candidates(listing: Seq<Entry>) -> Seq<Candidate>
    decreases listing.len(),
{
    if listing.len() == 0 {
        seq![]
    } else {
        let before = candidates(listing.drop_last());
        let entry = listing.last();
        if entry.kind == EntryKind::Other && named_piece(entry.name) is Some {
            before.push(Candidate { name: entry.name, index: named_piece(entry.name)->0 })
        } else {
            before
        }
    }
}

/// How far the loading has got: what is to be done next, or how it ended.
pub enum LoadStep {
    /// List the directory of the cache.
    ListRoot,
    /// List the next segment's directory.
    ListSegment,
    /// Ask for the size of the next file.
    AskSize,
    /// Remove the file, which is not as long as a piece.
    Discard,
    /// Read the checksum of the piece that the file is named for.
    ReadChecksum,
    /// Read the piece that the file is named for, to compare it with this checksum.
    ReadPiece(Seq<u8>),
    /// Remove that piece.
    RemovePiece,
    /// Remove the checksum of that piece.
    RemoveChecksum,
    /// Every file was looked at.
    Loaded,
    /// The directory of the cache could not be listed.
    Failed,
    /// The loading cannot go on.
    Fault(CacheFault),
}

/// A loading: whether checksums are compared, the directories still to be listed, the files still
/// to be looked at and the directory they are in, the pieces found so far, and the next step.
pub struct Loading {
    pub verify: bool,
    pub segments: Seq<Seq<char>>,
    pub dir: Seq<char>,
    pub files: Seq<Candidate>,
    pub found: Seq<u64>,
    pub step: LoadStep,
}

impl Loading {
    /// Turns to the next file, or else to the next directory, or else ends.
    pub open spec fn settled(self) -> Loading {
        let step = if self.files.len() > 0 {
            LoadStep::AskSize
        } else if self.segments.len() > 0 {
            LoadStep::ListSegment
        } else {
            LoadStep::Loaded
        };
        Loading { step, ..self }
    }

    /// Turns away from the file that was looked at.
    pub open spec fn passed(self) -> Loading {
        Loading { files: self.files.skip(1), ..self }.settled()
    }

    /// Takes the piece that the file is named for as found, and turns away from the file.
    pub open spec fn kept(self) -> Loading {
        Loading { found: self.found.push(self.files[0].index), ..self }.passed()
    }

    /// Goes on with `step`.
    pub open spec fn at(self, step: LoadStep) -> Loading {
        Loading { step, ..self }
    }
}

impl Operation for Loading {
    /// Sizes are asked, and files of a wrong size removed, by the names that were listed; a piece
    /// and its checksum are read, and removed, where the cache keeps them.
    open spec fn action(self) -> Option<Action> {
        let file = Place { dir: self.dir, name: self.files[0].name };
        let index = self.files[0].index;
        match self.step {
            LoadStep::ListRoot => Some(Action::ListRoot),
            LoadStep::ListSegment => Some(Action::ListDir(self.segments[0])),
            LoadStep::AskSize => Some(Action::FileSize(file)),
            LoadStep::Discard => Some(Action::RemoveFile(file)),
            LoadStep::ReadChecksum => Some(Action::ReadFile(checksum_place(index))),
            LoadStep::ReadPiece(_) => Some(Action::ReadFile(piece_place(index))),
            LoadStep::RemovePiece => Some(Action::RemoveFile(piece_place(index))),
            LoadStep::RemoveChecksum => Some(Action::RemoveFile(checksum_place(index))),
            LoadStep::Loaded => None,
            LoadStep::Failed => None,
            LoadStep::Fault(_) => None,
        }
    }

    /// A file that is as long as a piece counts as one; where checksums are compared, only if its
    /// checksum matches. Whether a piece that does not match can be removed makes no difference.
    open spec fn next(self, reply: Reply) -> Loading {
        match self.step {
            LoadStep::ListRoot => match reply {
                Reply::Listing(listing) => Loading {
                    segments: directories(listing),
                    ..self
                }.settled(),
                _ => self.at(LoadStep::Failed),
            },
            LoadStep::ListSegment => match reply {
                Reply::Listing(listing) => Loading {
                    segments: self.segments.skip(1),
                    dir: self.segments[0],
                    files: candidates(listing),
                    ..self
                }.settled(),
                _ => self.at(LoadStep::Fault(CacheFault::SegmentUnreadable)),
            },
            LoadStep::AskSize => match reply {
                Reply::Size(size) => if size != PIECE_SIZE {
                    self.at(LoadStep::Discard)
                } else if self.verify {
                    self.at(LoadStep::ReadChecksum)
                } else {
                    self.kept()
                },
                _ => self.passed(),
            },
            LoadStep::Discard => if reply is Done {
                self.passed()
            } else {
                self.at(LoadStep::Fault(CacheFault::InvalidFileStays))
            },
            LoadStep::ReadChecksum => match reply {
                Reply::Content(expected) => self.at(LoadStep::ReadPiece(expected)),
                _ => self.at(LoadStep::Fault(CacheFault::ChecksumUnreadable)),
            },
            LoadStep::ReadPiece(expected) => match reply {
                Reply::Content(content) => if checksum_of(self.files[0].index, content)
                    != expected {
                    self.at(LoadStep::RemovePiece)
                } else {
                    self.kept()
                },
                _ => self.at(LoadStep::Fault(CacheFault::PieceUnreadable)),
            },
            LoadStep::RemovePiece => self.at(LoadStep::RemoveChecksum),
            LoadStep::RemoveChecksum => self.passed(),
            LoadStep::Loaded => self,
            LoadStep::Failed => self,
            LoadStep::Fault(_) => self,
        }
    }
}

/// A loading before anything was done.
pub open spec fn load_started(verify: bool) -> Loading {
    Loading {
        verify,
        segments: seq![],
        dir: seq![],
        files: seq![],
        found: seq![],
        step: LoadStep::ListRoot,
    }
}

/// A file that is named like a piece.
struct PieceFile {
    name: String,
    index: PieceIndex,
}

impl View for PieceFile {
    type V = Candidate;

    closed spec fn view(&self) -> Candidate {
        Candidate { name: self.name@, index: self.index.value }
    }
}

/// How far the loading has got.
enum LoadStage {
    ListRoot,
    ListSegment,
    AskSize,
    Discard,
    ReadChecksum,
    ReadPiece(Vec<u8>),
    RemovePiece,
    RemoveChecksum,
    Loaded,
    Failed,
    Fault(CacheFault),
}

/// How a loading ended.
#[derive(Clone, Copy, Debug, PartialEq, Eq, Structural)]
pub enum LoadEnd {
    /// Every file was looked at.
    Loaded,
    /// The directory of the cache could not be listed.
    Failed,
    /// The loading could not go on.
    Fault(CacheFault),
}

/// The search for the pieces that are on disk.
pub struct PieceLoad {
    verify: bool,
    segments: Vec<String>,
    dir: String,
    files: Vec<PieceFile>,
    found: Vec<u64>,
    stage: LoadStage,
}

impl View for PieceLoad {
    type V = Loading;

    closed spec fn view(&self) -> Loading {
        Loading {
            verify: self.verify,
            segments: self.segments@.map_values(|dir: String| dir@),
            dir: self.dir@,
            files: self.files@.map_values(|file: PieceFile| file@),
            found: self.found@,
            step: match self.stage {
                LoadStage::ListRoot => LoadStep::ListRoot,
                LoadStage::ListSegment => LoadStep::ListSegment,
                LoadStage::AskSize => LoadStep::AskSize,
                LoadStage::Discard => LoadStep::Discard,
                LoadStage::ReadChecksum => LoadStep::ReadChecksum,
                LoadStage::ReadPiece(expected) => LoadStep::ReadPiece(expected@),
                LoadStage::RemovePiece => LoadStep::RemovePiece,
                LoadStage::RemoveChecksum => LoadStep::RemoveChecksum,
                LoadStage::Loaded => LoadStep::Loaded,
                LoadStage::Failed => LoadStep::Failed,
                LoadStage::Fault(fault) => LoadStep::Fault(fault),
            },
        }
    }
}

/// The names of the directories in a listing.
fn directory_names(listing: &Vec<DirEntry>) -> (r: Vec<String>)
    ensures
        r@.map_values(|dir: String| dir@) == directories(entries(listing@)),
{
    let mut r: Vec<String> = Vec::new();
    let ghost all = entries(listing@);
    assert(r@.map_values(|dir: String| dir@) =~= directories(all.take(0)));
    let mut i: usize = 0;
    while i < listing.len()
        invariant
            i <= listing.len(),
            all == entries(listing@),
            r@.map_values(|dir: String| dir@) == directories(all.take(i as int)),
        decreases listing.len() - i,
    {
        let entry = &listing[i];
        let ghost before = r@;
        proof {
            assert(all.take(i + 1).drop_last() =~= all.take(i as int));
            assert(all.take(i + 1).last() == entry@);
        }
        if entry.kind == EntryKind::Directory {
            r.push(entry.name.clone());
            proof {
                assert(r@.map_values(|dir: String| dir@) =~= before.map_values(
                    |dir: String| dir@,
                ).push(entry.name@));
            }
        }
        i += 1;
    }
    proof {
        assert(all.take(all.len() as int) =~= all);
    }
    r
}

/// The files in a listing that are named like pieces.
fn piece_files(listing: &Vec<DirEntry>) -> (r: Vec<PieceFile>)
    ensures
        r@.map_values(|file: PieceFile| file@) == candidates(entries(listing@)),
{
    let mut r: Vec<PieceFile> = Vec::new();
    let ghost all = entries(listing@);
    assert(r@.map_values(|file: PieceFile| file@) =~= candidates(all.take(0)));
    let mut i: usize = 0;
    while i < listing.len()
        invariant
            i <= listing.len(),
            all == entries(listing@),
            r@.map_values(|file: PieceFile| file@) == candidates(all.take(i as int)),
        decreases listing.len() - i,
    {
        let entry = &listing[i];
        let ghost before = r@;
        proof {
            assert(all.take(i + 1).drop_last() =~= all.take(i as int));
            assert(all.take(i + 1).last() == entry@);
        }
        if entry.kind == EntryKind::Other {
            match piece_of_file_name(entry.name.as_str()) {
                Some(index) => {
                    let file = PieceFile { name: entry.name.clone(), index };
                    r.push(file);
                    proof {
                        assert(r@.map_values(|file: PieceFile| file@) =~= before.map_values(
                            |file: PieceFile| file@,
                        ).push(file@));
                    }
                },
                None => {},
            }
        }
        i += 1;
    }
    proof {
        assert(all.take(all.len() as int) =~= all);
    }
    r
}

impl PieceLoad {
    /// There is a directory to list where one is to be listed, and a file to look at where one is
    /// to be looked at.
    #[verifier::type_invariant]
    spec fn well_formed(self) -> bool {
        match self.stage {
            LoadStage::ListRoot => true,
            LoadStage::ListSegment => self.segments@.len() > 0,
            LoadStage::Loaded => true,
            LoadStage::Failed => true,
            LoadStage::Fault(_) => true,
            _ => self.files@.len() > 0,
        }
    }

    /// Starts to look for pieces on disk; `verify` says whether checksums are compared.
    pub fn start(verify: bool) -> (r: PieceLoad)
        ensures
            r@ == load_started(verify),
    {
        let r = PieceLoad {
            verify,
            segments: Vec::new(),
            dir: String::new(),
            files: Vec::new(),
            found: Vec::new(),
            stage: LoadStage::ListRoot,
        };
        proof {
            assert(r@.segments =~= seq![]);
            assert(r@.files =~= seq![]);
        }
        r
    }

    /// Turns to the next file, or else to the next directory, or else ends.
    fn settle(
        verify: bool,
        segments: Vec<String>,
        dir: String,
        files: Vec<PieceFile>,
        found: Vec<u64>,
    ) -> (r: PieceLoad)
        ensures
            r@ == (Loading {
                verify,
                segments: segments@.map_values(|dir: String| dir@),
                dir: dir@,
                files: files@.map_values(|file: PieceFile| file@),
                found: found@,
                step: LoadStep::Loaded,
            }).settled(),
    {
        let stage = if files.len() > 0 {
            LoadStage::AskSize
        } else if segments.len() > 0 {
            LoadStage::ListSegment
        } else {
            LoadStage::Loaded
        };
        PieceLoad { verify, segments, dir, files, found, stage }
    }

    /// Turns away from the file that was looked at; `keep` says whether its piece counts as found.
    fn pass(self, keep: bool) -> (r: PieceLoad)
        requires
            self.files@.len() > 0,
        ensures
            keep ==> r@ == self@.kept(),
            !keep ==> r@ == self@.passed(),
    {
        let mut files = self.files;
        let mut found = self.found;
        let ghost names = files@.map_values(|file: PieceFile| file@);
        let file = files.remove(0);
        if keep {
            found.push(file.index.value);
        }
        proof {
            assert(files@.map_values(|file: PieceFile| file@) =~= names.skip(1));
        }
        PieceLoad::settle(self.verify, self.segments, self.dir, files, found)
    }

    /// Goes on with `stage`.
    fn at(self, stage: LoadStage) -> (r: PieceLoad)
        requires
            self.files@.len() > 0 || (stage is Failed || stage is Fault),
            !(stage is ListSegment),
        ensures
            r@ == self@.at(PieceLoad { stage, ..self }@.step),
    {
        PieceLoad {
            verify: self.verify,
            segments: self.segments,
            dir: self.dir,
            files: self.files,
            found: self.found,
            stage,
        }
    }

    /// What to do next; nothing once the loading is over.
    pub fn action(&self) -> (r: Option<DiskAction>)
        ensures
            r is Some <==> self@.action() is Some,
            r is Some ==> r->0@ == self@.action()->0,
    {
        proof {
            use_type_invariant(self);
        }
        match &self.stage {
            LoadStage::ListRoot => Some(DiskAction::ListRoot),
            LoadStage::ListSegment => Some(DiskAction::ListDir(self.segments[0].clone())),
            LoadStage::AskSize => Some(
                DiskAction::FileSize(
                    FilePath { dir: self.dir.clone(), name: self.files[0].name.clone() },
                ),
            ),
            LoadStage::Discard => Some(
                DiskAction::RemoveFile(
                    FilePath { dir: self.dir.clone(), name: self.files[0].name.clone() },
                ),
            ),
            LoadStage::ReadChecksum => Some(
                DiskAction::ReadFile(piece_path(self.files[0].index).checksum),
            ),
            LoadStage::ReadPiece(_) => Some(
                DiskAction::ReadFile(piece_path(self.files[0].index).piece),
            ),
            LoadStage::RemovePiece => Some(
                DiskAction::RemoveFile(piece_path(self.files[0].index).piece),
            ),
            LoadStage::RemoveChecksum => Some(
                DiskAction::RemoveFile(piece_path(self.files[0].index).checksum),
            ),
            LoadStage::Loaded => None,
            LoadStage::Failed => None,
            LoadStage::Fault(_) => None,
        }
    }

    /// Goes on after `reply` to the action that was asked for.
    pub fn advance(self, reply: DiskReply) -> (r: PieceLoad)
        ensures
            r@ == self@.next(reply@),
    {
        proof {
            use_type_invariant(&self);
        }
        match &self.stage {
            LoadStage::ListRoot => match reply {
                DiskReply::Listing(listing) => PieceLoad::settle(
                    self.verify,
                    directory_names(&listing),
                    self.dir,
                    self.files,
                    self.found,
                ),
                _ => self.at(LoadStage::Failed),
            },
            LoadStage::ListSegment => match reply {
                DiskReply::Listing(listing) => {
                    let mut segments = self.segments;
                    let ghost names = segments@.map_values(|dir: String| dir@);
                    let dir = segments.remove(0);
                    proof {
                        assert(segments@.map_values(|dir: String| dir@) =~= names.skip(1));
                    }
                    PieceLoad::settle(
                        self.verify,
                        segments,
                        dir,
                        piece_files(&listing),
                        self.found,
                    )
                },
                _ => self.at(LoadStage::Fault(CacheFault::SegmentUnreadable)),
            },
            LoadStage::AskSize => match reply {
                DiskReply::Size(size) => {
                    if size != PIECE_SIZE as u64 {
                        self.at(LoadStage::Discard)
                    } else if self.verify {
                        self.at(LoadStage::ReadChecksum)
                    } else {
                        self.pass(true)
                    }
                },
                _ => self.pass(false),
            },
            LoadStage::Discard => match reply {
                DiskReply::Done => self.pass(false),
                _ => self.at(LoadStage::Fault(CacheFault::InvalidFileStays)),
            },
            LoadStage::ReadChecksum => match reply {
                DiskReply::Content(expected) => self.at(LoadStage::ReadPiece(expected)),
                _ => self.at(LoadStage::Fault(CacheFault::ChecksumUnreadable)),
            },
            LoadStage::ReadPiece(expected) => match reply {
                DiskReply::Content(content) => {
                    let index = self.files[0].index;
                    if !checksum_matches(index, content.as_slice(), expected.as_slice()) {
                        self.at(LoadStage::RemovePiece)
                    } else {
                        self.pass(true)
                    }
                },
                _ => self.at(LoadStage::Fault(CacheFault::PieceUnreadable)),
            },
            LoadStage::RemovePiece => self.at(LoadStage::RemoveChecksum),
            LoadStage::RemoveChecksum => self.pass(false),
            LoadStage::Loaded => self,
            LoadStage::Failed => self,
            LoadStage::Fault(_) => self,
        }
    }

    /// How the loading ended, and the pieces that it found.
    pub fn result(self) -> (r: (LoadEnd, Vec<u64>))
        requires
            self@.action() is None,
        ensures
            r.1@ == self@.found,
            r.0 is Loaded <==> self@.step is Loaded,
            r.0 is Failed <==> self@.step is Failed,
            r.0 is Fault <==> self@.step is Fault,
            r.0 is Fault ==> r.0->Fault_0 == self@.step->Fault_0,
    {
        let end = match self.stage {
            LoadStage::Failed => LoadEnd::Failed,
            LoadStage::Fault(fault) => LoadEnd::Fault(fault),
            _ => LoadEnd::Loaded,
        };
        (end, self.found)
    }
}

/// The directories of a listing are its entries of that kind, all of them, in order.
pub proof fn law_every_directory_is_listed(listing: Seq<Entry>)
    ensures
        directories(listing) == listing.filter(
            |e: Entry| e.kind == EntryKind::Directory,
        ).map_values(|e: Entry| e.name),
    decreases listing.len(),
{
    reveal(Seq::filter);
    let wanted = |e: Entry| e.kind == EntryKind::Directory;
    if listing.len() > 0 {
        law_every_directory_is_listed(listing.drop_last());
        let before = listing.drop_last().filter(wanted);
        if wanted(listing.last()) {
            assert(before.push(listing.last()).map_values(|e: Entry| e.name)
                =~= before.map_values(|e: Entry| e.name).push(listing.last().name));
        }
    }
    assert(directories(listing) =~= listing.filter(wanted).map_values(|e: Entry| e.name));
}

/// The files of a listing that are looked at are those that are named like pieces and are no
/// directories, all of them, in order, each with the number that its name tells.
pub proof fn law_every_piece_file_is_looked_at(listing: Seq<Entry>)
    ensures
        candidates(listing) == listing.filter(
            |e: Entry| e.kind == EntryKind::Other && named_piece(e.name) is Some,
        ).map_values(|e: Entry| Candidate { name: e.name, index: named_piece(e.name)->0 }),
    decreases listing.len(),
{
    reveal(Seq::filter);
    let wanted = |e: Entry| e.kind == EntryKind::Other && named_piece(e.name) is Some;
    let made = |e: Entry| Candidate { name: e.name, index: named_piece(e.name)->0 };
    if listing.len() > 0 {
        law_every_piece_file_is_looked_at(listing.drop_last());
        let before = listing.drop_last().filter(wanted);
        if wanted(listing.last()) {
            assert(before.push(listing.last()).map_values(made) =~= before.map_values(made).push(
                made(listing.last()),
            ));
        }
    }
    assert(candidates(listing) =~= listing.filter(wanted).map_values(made));
}

/// Whether `t` turns to what is left: the first of the files, or else the first of the directories,
/// or else nothing, and then the loading is over.
pub open spec fn turns_to_what_is_left(t: Loading) -> bool {
    &&& t.files.len() > 0 ==> t.step is AskSize && t.action() == Some(
        Action::FileSize(Place { dir: t.dir, name: t.files[0].name }),
    )
    &&& t.files.len() == 0 && t.segments.len() > 0 ==> t.action() == Some(
        Action::ListDir(t.segments[0]),
    )
    &&& t.files.len() == 0 && t.segments.len() == 0 ==> t.step is Loaded
}

/// Whether `t` has the file at hand of `s` behind it, with the pieces found of `s` and `more`.
pub open spec fn is_past_the_file(s: Loading, t: Loading, more: Seq<u64>) -> bool {
    &&& t.verify == s.verify
    &&& t.segments == s.segments
    &&& t.dir == s.dir
    &&& t.files == s.files.skip(1)
    &&& t.found == s.found + more
    &&& turns_to_what_is_left(t)
}

/// Whether `t` is `s` with the file at hand still in hand and `action` to be done next.
pub open spec fn stays_with_the_file(s: Loading, t: Loading, action: Action) -> bool {
    &&& t.verify == s.verify
    &&& t.segments == s.segments
    &&& t.dir == s.dir
    &&& t.files == s.files
    &&& t.found == s.found
    &&& t.action() == Some(action)
}

/// Loading begins with the directory of the cache, and each listing that comes is worked off whole:
/// all of its directories, or all of its files that are named like pieces.
pub proof fn law_load_follows_the_listings(verify: bool, s: Loading, reply: Reply)
    ensures
        load_started(verify).verify == verify,
        load_started(verify).found == Seq::<u64>::empty(),
        load_started(verify).files == Seq::<Candidate>::empty(),
        load_started(verify).segments == Seq::<Seq<char>>::empty(),
        load_started(verify).action() == Some(Action::ListRoot),
        s.action() is Some && s.action()->0 is ListRoot && reply is Listing ==> {
            let t = s.next(reply);
            &&& t.verify == s.verify
            &&& t.segments == reply->Listing_0.filter(
                |e: Entry| e.kind == EntryKind::Directory,
            ).map_values(|e: Entry| e.name)
            &&& t.files == s.files
            &&& t.found == s.found
            &&& turns_to_what_is_left(t)
        },
        s.action() is Some && s.action()->0 is ListRoot && !(reply is Listing)
            ==> s.next(reply).step
            is Failed && s.next(reply).found == s.found,
        s.action() is Some && s.action()->0 is ListDir && reply is Listing
            ==> {
            let t = s.next(reply);
            &&& t.verify == s.verify
            &&& t.segments == s.segments.skip(1)
            &&& t.dir == s.action()->0->ListDir_0
            &&& t.files == reply->Listing_0.filter(
                |e: Entry| e.kind == EntryKind::Other && named_piece(e.name) is Some,
            ).map_values(|e: Entry| Candidate { name: e.name, index: named_piece(e.name)->0 })
            &&& t.found == s.found
            &&& turns_to_what_is_left(t)
        },
        s.action() is Some && s.action()->0 is ListDir && !(reply is Listing) ==> s.next(reply).step
            == LoadStep::Fault(CacheFault::SegmentUnreadable) && s.next(reply).found == s.found,
        s.action() is None ==> s.next(reply) == s,
{
    if reply is Listing {
        law_every_directory_is_listed(reply->Listing_0);
        law_every_piece_file_is_looked_at(reply->Listing_0);
    }
}

/// Whatever the disk replies, the file at hand is dealt with as follows from the reply: one of a
/// wrong size is removed; one of the right size counts for the piece that it is named for, at once
/// or, if checksums are compared, once that piece was read and matched; a piece that does not match
/// is removed with its checksum and does not count.
pub proof fn law_load_follows_the_replies(s: Loading, reply: Reply)
    requires
        s.files.len() > 0,
    ensures
        s.step is AskSize && reply is Size && reply->Size_0 != PIECE_SIZE
            ==> stays_with_the_file(
            s,
            s.next(reply),
            Action::RemoveFile(Place { dir: s.dir, name: s.files[0].name }),
        ) && s.next(reply).step is Discard,
        s.step is AskSize && reply is Size && reply->Size_0 == PIECE_SIZE && s.verify
            ==> stays_with_the_file(
            s,
            s.next(reply),
            Action::ReadFile(checksum_place(s.files[0].index)),
        ) && s.next(reply).step is ReadChecksum,
        s.step is AskSize && reply is Size && reply->Size_0 == PIECE_SIZE && !s.verify
            ==> is_past_the_file(s, s.next(reply), seq![s.files[0].index]),
        s.step is AskSize && !(reply is Size) ==> is_past_the_file(s, s.next(reply), seq![]),
        s.step is Discard && reply is Done ==> is_past_the_file(s, s.next(reply), seq![]),
        s.step is Discard && !(reply is Done) ==> s.next(reply).step == LoadStep::Fault(
            CacheFault::InvalidFileStays,
        ),
        s.step is ReadChecksum && reply is Content ==> stays_with_the_file(
            s,
            s.next(reply),
            Action::ReadFile(piece_place(s.files[0].index)),
        ) && s.next(reply).step == LoadStep::ReadPiece(reply->Content_0),
        s.step is ReadChecksum && !(reply is Content) ==> s.next(reply).step == LoadStep::Fault(
            CacheFault::ChecksumUnreadable,
        ),
        s.step is ReadPiece && reply is Content
            && checksum_of(s.files[0].index, reply->Content_0) == s.step->ReadPiece_0
            ==> is_past_the_file(
            s,
            s.next(reply),
            seq![s.files[0].index],
        ),
        s.step is ReadPiece && reply is Content
            && checksum_of(s.files[0].index, reply->Content_0) != s.step->ReadPiece_0
            ==> stays_with_the_file(
            s,
            s.next(reply),
            Action::RemoveFile(piece_place(s.files[0].index)),
        ) && s.next(reply).step is RemovePiece,
        s.step is ReadPiece && !(reply is Content) ==> s.next(reply).step == LoadStep::Fault(
            CacheFault::PieceUnreadable,
        ),
        s.step is RemovePiece ==> stays_with_the_file(
            s,
            s.next(reply),
            Action::RemoveFile(checksum_place(s.files[0].index)),
        ) && s.next(reply).step is RemoveChecksum,
        s.step is RemoveChecksum ==> is_past_the_file(s, s.next(reply), seq![]),
        s.next(reply).step is Fault ==> s.next(reply).found == s.found,
        s.action() is None <==> s.step is Loaded || s.step is Failed || s.step is Fault,
{
    assert(s.found.push(s.files[0].index) =~= s.found + seq![s.files[0].index]);
    assert(s.found =~= s.found + seq![]);
}

} // verus!
