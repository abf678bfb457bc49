//! Reading a piece back, with and without a look at its checksum.

use crate::checksum::{checksum_matches, checksum_of};
use crate::disk::{completes, outcome, Action, Disk, DiskAction, DiskReply, Operation, Reply};
use crate::paths::{checksum_place, law_places_are_distinct, piece_path, piece_place};
use crate::primitives::{Piece, PieceIndex, PIECE_SIZE};
use vstd::prelude::*;

verus! {

/// What ends an operation for good: a file that must be there is not, or one that must go stays.
#[derive(Clone, Copy, Debug, PartialEq, Eq, Structural)]
pub enum CacheFault {
    /// A segment's directory could not be listed.
    SegmentUnreadable,
    /// A checksum's file could not be read.
    ChecksumUnreadable,
    /// A piece's file could not be read.
    PieceUnreadable,
    /// A file that is no valid piece could not be removed.
    InvalidFileStays,
}

/// What is said of a fault.
pub open spec fn fault_text(fault: CacheFault) -> Seq<char> {
    match fault {
        CacheFault::SegmentUnreadable => "read sub directory"@,
        CacheFault::ChecksumUnreadable => "Piece checkksum exit"@,
        CacheFault::PieceUnreadable => "Piece file exit"@,
        CacheFault::InvalidFileStays => "Remove invalid file"@,
    }
}

impl CacheFault {
    /// What to say of the fault.
    pub fn message(self) -> (r: &'static str)
        ensures
            r@ == fault_text(self),
    {
        match self {
            CacheFault::SegmentUnreadable => "read sub directory",
            CacheFault::ChecksumUnreadable => "Piece checkksum exit",
            CacheFault::PieceUnreadable => "Piece file exit",
            CacheFault::InvalidFileStays => "Remove invalid file",
        }
    }
}

/// Why a piece is not handed out.
#[derive(Clone, Copy, Debug, PartialEq, Eq, Structural)]
pub enum ReadError {
    /// There is no file of the piece.
    NotAFile,
    /// The disk could not be asked.
    Io,
    /// The file does not hold as many bytes as a piece.
    NotAPiece,
    /// The content is not what the checksum was made of.
    ChecksumMismatch,
    /// The operation cannot go on.
    Fault(CacheFault),
}

impl ReadError {
    /// What to say of the error; nothing where the disk's own error says it.
    pub fn message(self) -> (r: Option<&'static str>)
        ensures
            r is None <==> self is Io,
            self is NotAFile ==> r->0@ == "piece not file or not exit"@,
            self is NotAPiece ==> r->0@ == "()"@,
            self is ChecksumMismatch ==> r->0@ == "piece check doesn't match"@,
            self is Fault ==> r->0@ == fault_text(self->Fault_0),
    {
        match self {
            ReadError::NotAFile => Some("piece not file or not exit"),
            ReadError::Io => None,
            ReadError::NotAPiece => Some("()"),
            ReadError::ChecksumMismatch => Some("piece check doesn't match"),
            ReadError::Fault(fault) => Some(fault.message()),
        }
    }
}

/// How far the reading of a piece has got.
enum GetStage {
    FindFile,
    FindAnything,
    ReadPiece,
    Over(Result<Option<Piece>, ReadError>),
}

/// A piece that is being read.
pub struct PieceGet {
    index: PieceIndex,
    stage: GetStage,
}

/// How far the reading of a piece has got: what is to be done next, or how it ended.
pub enum GetStep {
    /// Ask whether the piece's file is a file.
    FindFile,
    /// Ask whether the piece's file exists.
    FindAnything,
    /// Read the piece's file.
    ReadPiece,
    /// The piece, that there is none, or why there is neither.
    Over(Result<Option<Seq<u8>>, ReadError>),
}

/// A piece that is being read: its index and how far it has got.
pub struct Getting {
    pub index: u64,
    pub step: GetStep,
}

/// What was read, over the bytes of the piece.
pub open spec fn got(r: Result<Option<Piece>, ReadError>) -> Result<Option<Seq<u8>>, ReadError> {
    match r {
        Ok(Some(piece)) => Ok(Some(piece@)),
        Ok(None) => Ok(None),
        Err(error) => Err(error),
    }
}

impl View for PieceGet {
    type V = Getting;

    closed spec fn view(&self) -> Getting {
        Getting {
            index: self.index.value,
            step: match self.stage {
                GetStage::FindFile => GetStep::FindFile,
                GetStage::FindAnything => GetStep::FindAnything,
                GetStage::ReadPiece => GetStep::ReadPiece,
                GetStage::Over(r) => GetStep::Over(got(r)),
            },
        }
    }
}

impl Operation for Getting {
    open spec fn action(self) -> Option<Action> {
        match self.step {
            GetStep::FindFile => Some(Action::IsFile(piece_place(self.index))),
            GetStep::FindAnything => Some(Action::FileExists(piece_place(self.index))),
            GetStep::ReadPiece => Some(Action::ReadFile(piece_place(self.index))),
            GetStep::Over(_) => None,
        }
    }

    open spec fn next(self, reply: Reply) -> Getting {
        let step = match self.step {
            GetStep::FindFile => if reply == Reply::Answer(true) {
                GetStep::FindAnything
            } else {
                GetStep::Over(Err(ReadError::NotAFile))
            },
            GetStep::FindAnything => match reply {
                Reply::Answer(true) => GetStep::ReadPiece,
                Reply::Answer(false) => GetStep::Over(Ok(None)),
                _ => GetStep::Over(Err(ReadError::Io)),
            },
            GetStep::ReadPiece => match reply {
                Reply::Content(content) => if content.len() == PIECE_SIZE {
                    GetStep::Over(Ok(Some(content)))
                } else {
                    GetStep::Over(Err(ReadError::NotAPiece))
                },
                _ => GetStep::Over(Err(ReadError::Fault(CacheFault::PieceUnreadable))),
            },
            GetStep::Over(_) => self.step,
        };
        Getting { step, ..self }
    }
}

/// The reading of piece `index`, before anything was done.
pub open spec fn get_started(index: u64) -> Getting {
    Getting { index, step: GetStep::FindFile }
}

impl PieceGet {
    /// Starts to read piece `index`.
    pub fn start(index: PieceIndex) -> (r: PieceGet)
        ensures
            r@ == get_started(index.value),
    {
        PieceGet { index, stage: GetStage::FindFile }
    }

    /// What to do next; nothing once the reading is over.
    pub fn action(&self) -> (r: Option<DiskAction>)
        ensures
            r is Some <==> self@.action() is Some,
            r is Some ==> r->0@ == self@.action()->0,
    {
        let path = piece_path(self.index);
        match &self.stage {
            GetStage::FindFile => Some(DiskAction::IsFile(path.piece)),
            GetStage::FindAnything => Some(DiskAction::FileExists(path.piece)),
            GetStage::ReadPiece => Some(DiskAction::ReadFile(path.piece)),
            GetStage::Over(_) => None,
        }
    }

    /// Goes on after `reply` to the action that was asked for.
    pub fn advance(self, reply: DiskReply) -> (r: PieceGet)
        ensures
            r@ == self@.next(reply@),
    {
        let index = self.index;
        let stage = match self.stage {
            GetStage::FindFile => match reply {
                DiskReply::Answer(true) => GetStage::FindAnything,
                _ => GetStage::Over(Err(ReadError::NotAFile)),
            },
            GetStage::FindAnything => match reply {
                DiskReply::Answer(true) => GetStage::ReadPiece,
                DiskReply::Answer(false) => GetStage::Over(Ok(None)),
                _ => GetStage::Over(Err(ReadError::Io)),
            },
            GetStage::ReadPiece => match reply {
                DiskReply::Content(content) => match Piece::try_from(content) {
                    Some(piece) => GetStage::Over(Ok(Some(piece))),
                    None => GetStage::Over(Err(ReadError::NotAPiece)),
                },
                _ => GetStage::Over(Err(ReadError::Fault(CacheFault::PieceUnreadable))),
            },
            GetStage::Over(r) => GetStage::Over(r),
        };
        PieceGet { index, stage }
    }

    /// What was read, once the reading is over.
    pub fn result(self) -> (r: Result<Option<Piece>, ReadError>)
        requires
            self@.action() is None,
        ensures
            self@.step == GetStep::Over(got(r)),
    {
        match self.stage {
            GetStage::Over(r) => r,
            _ => Err(ReadError::Io),
        }
    }
}

/// How far the checked reading of a piece has got.
enum CheckStage {
    FindFile,
    ReadChecksum,
    ReadPiece(Vec<u8>),
    RemovePiece,
    RemoveChecksum,
    Over(Result<Piece, ReadError>),
}

/// A piece that is being read and checked.
pub struct PieceCheck {
    index: PieceIndex,
    stage: CheckStage,
}

/// How far the checked reading of a piece has got: what is to be done next, or how it ended.
pub enum CheckStep {
    /// Ask whether the piece's file is a file.
    FindFile,
    /// Read the checksum's file.
    ReadChecksum,
    /// Read the piece's file, to compare it with this checksum.
    ReadPiece(Seq<u8>),
    /// Remove the piece's file.
    RemovePiece,
    /// Remove the checksum's file.
    RemoveChecksum,
    /// The piece, or why there is none.
    Over(Result<Seq<u8>, ReadError>),
}

/// A piece that is being read and checked: its index and how far it has got.
pub struct Checking {
    pub index: u64,
    pub step: CheckStep,
}

/// What was read and checked, over the bytes of the piece.
pub open spec fn checked(r: Result<Piece, ReadError>) -> Result<Seq<u8>, ReadError> {
    match r {
        Ok(piece) => Ok(piece@),
        Err(error) => Err(error),
    }
}

impl View for PieceCheck {
    type V = Checking;

    closed spec fn view(&self) -> Checking {
        Checking {
            index: self.index.value,
            step: match self.stage {
                CheckStage::FindFile => CheckStep::FindFile,
                CheckStage::ReadChecksum => CheckStep::ReadChecksum,
                CheckStage::ReadPiece(expected) => CheckStep::ReadPiece(expected@),
                CheckStage::RemovePiece => CheckStep::RemovePiece,
                CheckStage::RemoveChecksum => CheckStep::RemoveChecksum,
                CheckStage::Over(r) => CheckStep::Over(checked(r)),
            },
        }
    }
}

impl Operation for Checking {
    /// A piece whose checksum does not match is removed, and then its checksum.
    open spec fn action(self) -> Option<Action> {
        match self.step {
            CheckStep::FindFile => Some(Action::IsFile(piece_place(self.index))),
            CheckStep::ReadChecksum => Some(Action::ReadFile(checksum_place(self.index))),
            CheckStep::ReadPiece(_) => Some(Action::ReadFile(piece_place(self.index))),
            CheckStep::RemovePiece => Some(Action::RemoveFile(piece_place(self.index))),
            CheckStep::RemoveChecksum => Some(Action::RemoveFile(checksum_place(self.index))),
            CheckStep::Over(_) => None,
        }
    }

    open spec fn next(self, reply: Reply) -> Checking {
        let stays = CheckStep::Over(Err(ReadError::Fault(CacheFault::InvalidFileStays)));
        let step = match self.step {
            CheckStep::FindFile => if reply == Reply::Answer(true) {
                CheckStep::ReadChecksum
            } else {
                CheckStep::Over(Err(ReadError::NotAFile))
            },
            CheckStep::ReadChecksum => match reply {
                Reply::Content(expected) => CheckStep::ReadPiece(expected),
                _ => CheckStep::Over(Err(ReadError::Fault(CacheFault::ChecksumUnreadable))),
            },
            CheckStep::ReadPiece(expected) => match reply {
                Reply::Content(content) => if checksum_of(self.index, content) != expected {
                    CheckStep::RemovePiece
                } else if content.len() == PIECE_SIZE {
                    CheckStep::Over(Ok(content))
                } else {
                    CheckStep::Over(Err(ReadError::NotAPiece))
                },
                _ => CheckStep::Over(Err(ReadError::Fault(CacheFault::PieceUnreadable))),
            },
            CheckStep::RemovePiece => if reply is Done {
                CheckStep::RemoveChecksum
            } else {
                stays
            },
            CheckStep::RemoveChecksum => if reply is Done {
                CheckStep::Over(Err(ReadError::ChecksumMismatch))
            } else {
                stays
            },
            CheckStep::Over(_) => self.step,
        };
        Checking { step, ..self }
    }
}

/// The checked reading of piece `index`, before anything was done.
pub open spec fn check_started(index: u64) -> Checking {
    Checking { index, step: CheckStep::FindFile }
}

impl PieceCheck {
    /// Starts to read and check piece `index`.
    pub fn start(index: PieceIndex) -> (r: PieceCheck)
        ensures
            r@ == check_started(index.value),
    {
        PieceCheck { index, stage: CheckStage::FindFile }
    }

    /// The piece that is being read.
    pub fn index(&self) -> (r: PieceIndex)
        ensures
            r.value == self@.index,
    {
        self.index
    }

    /// What to do next; nothing once the reading is over.
    pub fn action(&self) -> (r: Option<DiskAction>)
        ensures
            r is Some <==> self@.action() is Some,
            r is Some ==> r->0@ == self@.action()->0,
    {
        let path = piece_path(self.index);
        match &self.stage {
            CheckStage::FindFile => Some(DiskAction::IsFile(path.piece)),
            CheckStage::ReadChecksum => Some(DiskAction::ReadFile(path.checksum)),
            CheckStage::ReadPiece(_) => Some(DiskAction::ReadFile(path.piece)),
            CheckStage::RemovePiece => Some(DiskAction::RemoveFile(path.piece)),
            CheckStage::RemoveChecksum => Some(DiskAction::RemoveFile(path.checksum)),
            CheckStage::Over(_) => None,
        }
    }

    /// Goes on after `reply` to the action that was asked for.
    pub fn advance(self, reply: DiskReply) -> (r: PieceCheck)
        ensures
            r@ == self@.next(reply@),
    {
        let index = self.index;
        let stage = match self.stage {
            CheckStage::FindFile => match reply {
                DiskReply::Answer(true) => CheckStage::ReadChecksum,
                _ => CheckStage::Over(Err(ReadError::NotAFile)),
            },
            CheckStage::ReadChecksum => match reply {
                DiskReply::Content(expected) => CheckStage::ReadPiece(expected),
                _ => CheckStage::Over(Err(ReadError::Fault(CacheFault::ChecksumUnreadable))),
            },
            CheckStage::ReadPiece(expected) => match reply {
                DiskReply::Content(content) => {
                    if !checksum_matches(index, content.as_slice(), expected.as_slice()) {
                        CheckStage::RemovePiece
                    } else {
                        match Piece::try_from(content) {
                            Some(piece) => CheckStage::Over(Ok(piece)),
                            None => CheckStage::Over(Err(ReadError::NotAPiece)),
                        }
                    }
                },
                _ => CheckStage::Over(Err(ReadError::Fault(CacheFault::PieceUnreadable))),
            },
            CheckStage::RemovePiece => match reply {
                DiskReply::Done => CheckStage::RemoveChecksum,
                _ => CheckStage::Over(Err(ReadError::Fault(CacheFault::InvalidFileStays))),
            },
            CheckStage::RemoveChecksum => match reply {
                DiskReply::Done => CheckStage::Over(Err(ReadError::ChecksumMismatch)),
                _ => CheckStage::Over(Err(ReadError::Fault(CacheFault::InvalidFileStays))),
            },
            CheckStage::Over(r) => CheckStage::Over(r),
        };
        PieceCheck { index, stage }
    }

    /// What was read, once the reading is over.
    pub fn result(self) -> (r: Result<Piece, ReadError>)
        requires
            self@.action() is None,
        ensures
            self@.step == CheckStep::Over(checked(r)),
    {
        match self.stage {
            CheckStage::Over(r) => r,
            _ => Err(ReadError::Io),
        }
    }
}

/// What there is to read of piece `index`: without a file of it, an error; with one, its content,
/// if that is as long as a piece.
pub open spec fn readable(disk: Disk, index: u64) -> Result<Option<Seq<u8>>, ReadError> {
    let place = piece_place(index);
    if !disk.has(place) {
        Err(ReadError::NotAFile)
    } else if disk.content(place).len() != PIECE_SIZE {
        Err(ReadError::NotAPiece)
    } else {
        Ok(Some(disk.content(place)))
    }
}

/// On a disk in working order reading gives what is there to read and changes nothing.
pub proof fn law_get_reads_the_file(disk: Disk, index: u64, replies: Seq<Reply>)
    requires
        completes(get_started(index), disk, replies),
    ensures
        outcome(get_started(index), disk, replies).0.step == GetStep::Over(readable(disk, index)),
        outcome(get_started(index), disk, replies).1 == disk,
        replies.len() <= 3,
{
    reveal_with_fuel(completes, 5);
    reveal_with_fuel(outcome, 5);
}

/// Whether the checksum that is kept of piece `index` is that of the content of its file.
pub open spec fn intact(disk: Disk, index: u64) -> bool {
    checksum_of(index, disk.content(piece_place(index))) == disk.content(checksum_place(index))
}

/// On a disk in working order that holds piece `index` and its checksum, checked reading gives
/// the piece and changes nothing if they match; if they do not, it gives none and removes both.
pub proof fn law_check_gives_intact_pieces_only(disk: Disk, index: u64, replies: Seq<Reply>)
    requires
        completes(check_started(index), disk, replies),
        disk.has(piece_place(index)),
        disk.has(checksum_place(index)),
    ensures
        intact(disk, index) ==> outcome(check_started(index), disk, replies).1 == disk,
        intact(disk, index) && disk.content(piece_place(index)).len() == PIECE_SIZE ==> outcome(
            check_started(index),
            disk,
            replies,
        ).0.step == CheckStep::Over(Ok(disk.content(piece_place(index)))),
        intact(disk, index) && disk.content(piece_place(index)).len() != PIECE_SIZE ==> outcome(
            check_started(index),
            disk,
            replies,
        ).0.step == CheckStep::Over(Err(ReadError::NotAPiece)),
        !intact(disk, index) ==> outcome(check_started(index), disk, replies).0.step
            == CheckStep::Over(Err(ReadError::ChecksumMismatch)),
        !intact(disk, index) ==> outcome(check_started(index), disk, replies).1 == disk.without(
            piece_place(index),
        ).without(checksum_place(index)),
        replies.len() <= 5,
{
    reveal_with_fuel(completes, 7);
    reveal_with_fuel(outcome, 7);
    law_places_are_distinct(index, index);
}

/// On a disk in working order that holds no file of piece `index`, checked reading says so and
/// changes nothing; where only the checksum is missing, it cannot go on.
pub proof fn law_check_without_files(disk: Disk, index: u64, replies: Seq<Reply>)
    requires
        completes(check_started(index), disk, replies),
    ensures
        !disk.has(piece_place(index)) ==> outcome(check_started(index), disk, replies).0.step
            == CheckStep::Over(Err(ReadError::NotAFile)),
        disk.has(piece_place(index)) && !disk.has(checksum_place(index)) ==> outcome(
            check_started(index),
            disk,
            replies,
        ).0.step == CheckStep::Over(Err(ReadError::Fault(CacheFault::ChecksumUnreadable))),
        !disk.has(piece_place(index)) || !disk.has(checksum_place(index)) ==> outcome(
            check_started(index),
            disk,
            replies,
        ).1 == disk,
{
    reveal_with_fuel(completes, 4);
    reveal_with_fuel(outcome, 4);
}

/// What was read is seen for what it is: the same bytes, or the same error.
pub proof fn law_results_are_seen_in_full(
    plain: Result<Option<Piece>, ReadError>,
    compared: Result<Piece, ReadError>,
)
    ensures
        plain matches Ok(Some(piece)) ==> got(plain) == Ok::<Option<Seq<u8>>, ReadError>(
            Some(piece@),
        ),
        plain matches Ok(None) ==> got(plain) == Ok::<Option<Seq<u8>>, ReadError>(None),
        plain matches Err(error) ==> got(plain) == Err::<Option<Seq<u8>>, ReadError>(error),
        compared matches Ok(piece) ==> checked(compared) == Ok::<Seq<u8>, ReadError>(piece@),
        compared matches Err(error) ==> checked(compared) == Err::<Seq<u8>, ReadError>(error),
{
}

/// Whatever the disk replies, reading goes on with what follows from the reply: the piece's own
/// file, and no other, is looked for and read, and what is handed out is what was read, if that is
/// as long as a piece.
pub proof fn law_get_follows_the_replies(s: Getting, index: u64, reply: Reply)
    ensures
        get_started(index).index == index,
        get_started(index).action() == Some(Action::IsFile(piece_place(index))),
        s.next(reply).index == s.index,
        s.action() is Some && s.action()->0 is IsFile && reply == Reply::Answer(true) ==> s.next(
            reply,
        ).action() == Some(Action::FileExists(piece_place(s.index))),
        s.action() is Some && s.action()->0 is IsFile && reply != Reply::Answer(true) ==> s.next(
            reply,
        ).step == GetStep::Over(Err(ReadError::NotAFile)),
        s.action() is Some && s.action()->0 is FileExists && reply == Reply::Answer(true)
            ==> s.next(
            reply,
        ).action() == Some(Action::ReadFile(piece_place(s.index))),
        s.action() is Some && s.action()->0 is FileExists && reply == Reply::Answer(false)
            ==> s.next(
            reply,
        ).step == GetStep::Over(Ok(None)),
        s.action() is Some && s.action()->0 is FileExists && !(reply is Answer)
            ==> s.next(reply).step
            == GetStep::Over(Err(ReadError::Io)),
        s.action() is Some && s.action()->0 is ReadFile && reply is Content
            && reply->Content_0.len() == PIECE_SIZE ==> s.next(reply).step == GetStep::Over(
            Ok(Some(reply->Content_0)),
        ),
        s.action() is Some && s.action()->0 is ReadFile && reply is Content
            && reply->Content_0.len() != PIECE_SIZE ==> s.next(reply).step == GetStep::Over(
            Err(ReadError::NotAPiece),
        ),
        s.action() is Some && s.action()->0 is ReadFile && !(reply is Content)
            ==> s.next(reply).step
            == GetStep::Over(Err(ReadError::Fault(CacheFault::PieceUnreadable))),
        s.action() is None <==> s.step is Over,
        s.action() is None ==> s.next(reply) == s,
{
}

/// Whatever the disk replies, checked reading goes on with what follows from the reply: the
/// checksum is read and then the piece; a piece that the checksum was not made of is removed, and
/// its checksum after it; what is handed out is what was read.
pub proof fn law_check_follows_the_replies(s: Checking, index: u64, reply: Reply)
    ensures
        check_started(index).index == index,
        check_started(index).action() == Some(Action::IsFile(piece_place(index))),
        s.next(reply).index == s.index,
        s.action() is Some && s.action()->0 is IsFile && reply == Reply::Answer(true) ==> s.next(
            reply,
        ).action() == Some(Action::ReadFile(checksum_place(s.index))),
        s.action() is Some && s.action()->0 is IsFile && reply != Reply::Answer(true) ==> s.next(
            reply,
        ).step == CheckStep::Over(Err(ReadError::NotAFile)),
        s.action() == Some(Action::ReadFile(checksum_place(s.index))) && reply is Content
            ==> s.next(reply).step == CheckStep::ReadPiece(reply->Content_0)
            && s.next(reply).action() == Some(Action::ReadFile(piece_place(s.index))),
        s.action() == Some(Action::ReadFile(checksum_place(s.index))) && !(reply is Content)
            ==> s.next(reply).step == CheckStep::Over(
            Err(ReadError::Fault(CacheFault::ChecksumUnreadable)),
        ),
        s.step is ReadPiece && reply is Content
            && checksum_of(s.index, reply->Content_0) != s.step->ReadPiece_0
            ==> s.next(reply).action() == Some(
            Action::RemoveFile(piece_place(s.index)),
        ),
        s.step is ReadPiece && reply is Content && checksum_of(s.index, reply->Content_0)
            == s.step->ReadPiece_0 && reply->Content_0.len() == PIECE_SIZE ==> s.next(
            reply,
        ).step == CheckStep::Over(Ok(reply->Content_0)),
        s.step is ReadPiece && reply is Content && checksum_of(s.index, reply->Content_0)
            == s.step->ReadPiece_0 && reply->Content_0.len() != PIECE_SIZE ==> s.next(
            reply,
        ).step == CheckStep::Over(Err(ReadError::NotAPiece)),
        s.step is ReadPiece && !(reply is Content) ==> s.next(reply).step == CheckStep::Over(
            Err(ReadError::Fault(CacheFault::PieceUnreadable)),
        ),
        s.action() == Some(Action::RemoveFile(piece_place(s.index))) && reply is Done ==> s.next(
            reply,
        ).action() == Some(Action::RemoveFile(checksum_place(s.index))),
        s.action() == Some(Action::RemoveFile(checksum_place(s.index))) && reply is Done ==> s.next(
            reply,
        ).step == CheckStep::Over(Err(ReadError::ChecksumMismatch)),
        s.action() is Some && s.action()->0 is RemoveFile && !(reply is Done) ==> s.next(reply).step
            == CheckStep::Over(Err(ReadError::Fault(CacheFault::InvalidFileStays))),
        s.action() is None <==> s.step is Over,
        s.action() is None ==> s.next(reply) == s,
{
    law_places_are_distinct(s.index, s.index);
}

} // verus!
