//! Saving a piece.

use crate::checksum::{checksum_of, piece_checksum};
use crate::disk::{
    completes, copy_bytes, outcome, Action, Disk, DiskAction, DiskReply, Operation, Reply,
};
use crate::paths::{
    checksum_place, law_places_are_distinct, piece_path, piece_place, segment_dir_of,
};
use crate::primitives::{Piece, PieceIndex};
use vstd::prelude::*;

verus! {

/// How far the saving of a piece has got: what is to be done next, or how it ended.
#[derive(Clone, Copy, Debug, PartialEq, Eq, Structural)]
pub enum SaveStage {
    /// Ask whether the segment's directory exists.
    FindDir,
    /// Create the segment's directory.
    CreateDir,
    /// Ask whether the piece's file exists.
    FindPiece,
    /// Write the checksum's file.
    WriteChecksum,
    /// Write the piece's file.
    WritePiece,
    /// The piece is on disk.
    Saved,
    /// A directory could not be created or a file not written.
    Failed,
}

/// A piece that is being saved.
pub struct PieceSave {
    index: PieceIndex,
    piece: Piece,
    stage: SaveStage,
}

/// A piece that is being saved: its index, its bytes and how far it has got.
pub struct Saving {
    pub index: u64,
    pub piece: Seq<u8>,
    pub stage: SaveStage,
}

impl View for PieceSave {
    type V = Saving;

    closed spec fn view(&self) -> Saving {
        Saving { index: self.index.value, piece: self.piece@, stage: self.stage }
    }
}

impl Operation for Saving {
    /// The segment's directory is created where it is missing. The checksum is written before the
    /// piece, and neither is written where the piece's file exists.
    open spec fn action(self) -> Option<Action> {
        match self.stage {
            SaveStage::FindDir => Some(Action::DirExists(segment_dir_of(self.index))),
            SaveStage::CreateDir => Some(Action::CreateDir(segment_dir_of(self.index))),
            SaveStage::FindPiece => Some(Action::FileExists(piece_place(self.index))),
            SaveStage::WriteChecksum => Some(
                Action::WriteFile(
                    checksum_place(self.index),
                    checksum_of(self.index, self.piece),
                ),
            ),
            SaveStage::WritePiece => Some(Action::WriteFile(piece_place(self.index), self.piece)),
            SaveStage::Saved => None,
            SaveStage::Failed => None,
        }
    }

    open spec fn next(self, reply: Reply) -> Saving {
        let stage = match self.stage {
            SaveStage::FindDir => if reply == Reply::Answer(true) {
                SaveStage::FindPiece
            } else {
                SaveStage::CreateDir
            },
            SaveStage::CreateDir => if reply is Done {
                SaveStage::FindPiece
            } else {
                SaveStage::Failed
            },
            SaveStage::FindPiece => if reply == Reply::Answer(true) {
                SaveStage::Saved
            } else {
                SaveStage::WriteChecksum
            },
            SaveStage::WriteChecksum => if reply is Done {
                SaveStage::WritePiece
            } else {
                SaveStage::Failed
            },
            SaveStage::WritePiece => if reply is Done {
                SaveStage::Saved
            } else {
                SaveStage::Failed
            },
            SaveStage::Saved => SaveStage::Saved,
            SaveStage::Failed => SaveStage::Failed,
        };
        Saving { stage, ..self }
    }
}

/// The saving of `piece` as piece `index`, before anything was done.
pub open spec fn save_started(index: u64, piece: Seq<u8>) -> Saving {
    Saving { index, piece, stage: SaveStage::FindDir }
}

impl PieceSave {
    /// Starts to save `piece` as piece `index`.
    pub fn start(index: PieceIndex, piece: Piece) -> (r: PieceSave)
        ensures
            r@ == save_started(index.value, piece@),
    {
        PieceSave { index, piece, stage: SaveStage::FindDir }
    }

    /// The piece that is being saved.
    pub fn index(&self) -> (r: PieceIndex)
        ensures
            r.value == self@.index,
    {
        self.index
    }

    /// How far the saving has got.
    pub fn stage(&self) -> (r: SaveStage)
        ensures
            r == self@.stage,
    {
        self.stage
    }

    /// What to do next; nothing once the saving is over.
    pub fn action(&self) -> (r: Option<DiskAction>)
        ensures
            r is Some <==> self@.action() is Some,
            r is Some ==> r->0@ == self@.action()->0,
    {
        let path = piece_path(self.index);
        match self.stage {
            SaveStage::FindDir => Some(DiskAction::DirExists(path.segment_dir)),
            SaveStage::CreateDir => Some(DiskAction::CreateDir(path.segment_dir)),
            SaveStage::FindPiece => Some(DiskAction::FileExists(path.piece)),
            SaveStage::WriteChecksum => {
                let checksum = piece_checksum(self.index, self.piece.as_bytes().as_slice());
                Some(DiskAction::WriteFile(path.checksum, checksum))
            },
            SaveStage::WritePiece => {
                Some(DiskAction::WriteFile(path.piece, copy_bytes(self.piece.as_bytes())))
            },
            SaveStage::Saved => None,
            SaveStage::Failed => None,
        }
    }

    /// Goes on after `reply` to the action that was asked for.
    pub fn advance(self, reply: DiskReply) -> (r: PieceSave)
        ensures
            r@ == self@.next(reply@),
    {
        let stage = match (self.stage, reply) {
            (SaveStage::FindDir, DiskReply::Answer(true)) => SaveStage::FindPiece,
            (SaveStage::FindDir, _) => SaveStage::CreateDir,
            (SaveStage::CreateDir, DiskReply::Done) => SaveStage::FindPiece,
            (SaveStage::FindPiece, DiskReply::Answer(true)) => SaveStage::Saved,
            (SaveStage::FindPiece, _) => SaveStage::WriteChecksum,
            (SaveStage::WriteChecksum, DiskReply::Done) => SaveStage::WritePiece,
            (SaveStage::WritePiece, DiskReply::Done) => SaveStage::Saved,
            (SaveStage::Saved, _) => SaveStage::Saved,
            _ => SaveStage::Failed,
        };
        PieceSave { index: self.index, piece: self.piece, stage }
    }
}

/// The disk on which piece `index` has been saved as `piece`: a file that was there is kept, and
/// otherwise the piece and its checksum are there, in the segment's directory.
pub open spec fn disk_with_piece(disk: Disk, index: u64, piece: Seq<u8>) -> Disk {
    let place = piece_place(index);
    let ready = disk.after(Action::CreateDir(place.dir));
    if disk.has(place) {
        disk
    } else {
        ready.with(checksum_place(index), checksum_of(index, piece)).with(place, piece)
    }
}

/// On a disk in working order saving succeeds, within five actions, and leaves the piece and its
/// checksum there, unless there was a file of that piece, which is then left as it was.
pub proof fn law_save_writes_piece_and_checksum(
    disk: Disk,
    index: u64,
    piece: Seq<u8>,
    replies: Seq<Reply>,
)
    requires
        completes(save_started(index, piece), disk, replies),
    ensures
        outcome(save_started(index, piece), disk, replies).0.stage == SaveStage::Saved,
        outcome(save_started(index, piece), disk, replies).1 =~= disk_with_piece(
            disk,
            index,
            piece,
        ),
        replies.len() <= 5,
{
    reveal_with_fuel(completes, 7);
    reveal_with_fuel(outcome, 7);
    law_places_are_distinct(index, index);
}

/// Saving begins with the question whether the segment's directory exists.
pub proof fn law_save_begins_with_the_directory(index: u64, piece: Seq<u8>)
    ensures
        save_started(index, piece).index == index,
        save_started(index, piece).piece == piece,
        save_started(index, piece).action() == Some(Action::DirExists(segment_dir_of(index))),
{
}

/// Whatever the disk replies, saving goes on with what follows from the reply: a missing directory
/// is created; where the piece's file exists, the piece counts as saved; where it does not, first
/// the checksum and then the piece is written, whole; and nothing follows what could not be done.
pub proof fn law_save_follows_the_replies(s: Saving, reply: Reply)
    ensures
        s.next(reply).index == s.index,
        s.next(reply).piece == s.piece,
        s.action() is Some && s.action()->0 is DirExists ==> s.next(reply).action() == Some(
            if reply == Reply::Answer(true) {
                Action::FileExists(piece_place(s.index))
            } else {
                Action::CreateDir(segment_dir_of(s.index))
            },
        ),
        s.action() is Some && s.action()->0 is CreateDir && reply is Done ==> s.next(reply).action()
            == Some(Action::FileExists(piece_place(s.index))),
        s.action() is Some && s.action()->0 is FileExists && reply == Reply::Answer(true)
            ==> s.next(
            reply,
        ).stage == SaveStage::Saved,
        s.action() is Some && s.action()->0 is FileExists && reply != Reply::Answer(true)
            ==> s.next(
            reply,
        ).action() == Some(
            Action::WriteFile(checksum_place(s.index), checksum_of(s.index, s.piece)),
        ),
        s.action() is Some && s.action()->0 is WriteFile && s.action()->0->WriteFile_0
            == checksum_place(s.index)
            && reply is Done ==> s.next(reply).action() == Some(
            Action::WriteFile(piece_place(s.index), s.piece),
        ),
        s.action() is Some && s.action()->0 is WriteFile && s.action()->0->WriteFile_0
            == piece_place(s.index)
            && reply is Done ==> s.next(reply).stage == SaveStage::Saved,
        s.action() is Some && s.action()->0 is CreateDir && !(reply is Done) ==> s.next(reply).stage
            == SaveStage::Failed,
        s.action() is Some && s.action()->0 is WriteFile && !(reply is Done) ==> s.next(
            reply,
        ).stage == SaveStage::Failed,
        s.action() is None <==> s.stage == SaveStage::Saved || s.stage == SaveStage::Failed,
        s.action() is None ==> s.next(reply) == s,
{
    law_places_are_distinct(s.index, s.index);
}

} // verus!
