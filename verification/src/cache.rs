//! The cache: the pieces that are known to be on disk.

use crate::disk::Operation;
use crate::load::{load_started, LoadEnd, PieceLoad};
use crate::paths::{checksum_place, piece_place, segment_dir_of, PiecePath};
use crate::primitives::{Piece, PieceIndex};
use crate::read::{
    check_started, checked, get_started, CheckStep, PieceCheck, PieceGet, ReadError,
};
use crate::save::{save_started, PieceSave, SaveStage};
use std::collections::HashSet;
use vstd::prelude::*;

verus! {

broadcast use vstd::std_specs::hash::group_hash_axioms;

/// The pieces that are known to be on disk.
#[derive(Debug)]
pub struct MyPieceCache {
    pieces: HashSet<u64>,
}

impl View for MyPieceCache {
    type V = Set<u64>;

    closed spec fn view(&self) -> Set<u64> {
        self.pieces@
    }
}

/// Whether `r` is the greatest of `pieces`, or zero if there are none.
pub open spec fn is_greatest(pieces: Set<u64>, r: u64) -> bool {
    &&& forall|i: u64| #[trigger] pieces.contains(i) ==> i <= r
    &&& pieces.contains(r) || (r == 0 && pieces == Set::<u64>::empty())
}

/// Those of `indexes` that are among `pieces`, in order.
pub open spec fn held(pieces: Set<u64>, indexes: Seq<PieceIndex>) -> Seq<PieceIndex> {
    indexes.filter(|i: PieceIndex| pieces.contains(i.value))
}

impl MyPieceCache {
    /// A cache that knows of no piece.
    pub fn new() -> (r: MyPieceCache)
        ensures
            r@ == Set::<u64>::empty(),
    {
        MyPieceCache { pieces: HashSet::new() }
    }

    /// Whether a piece is known to be on disk.
    pub fn has_piece(&self, index: &PieceIndex) -> (r: bool)
        ensures
            r == self@.contains(index.value),
    {
        self.pieces.contains(&index.value)
    }

    /// Those of `indexs` that are known to be on disk, in order.
    pub fn has_pieces(&self, indexs: Vec<PieceIndex>) -> (r: Vec<PieceIndex>)
        ensures
            r@ == held(self@, indexs@),
            r@ == indexs@.filter(|i: PieceIndex| self@.contains(i.value)),
    {
        let mut find_pieces: Vec<PieceIndex> = Vec::new();
        let ghost wanted = |i: PieceIndex| self@.contains(i.value);
        let mut i: usize = 0;
        proof {
            reveal(Seq::filter);
        }
        while i < indexs.len()
            invariant
                i <= indexs.len(),
                wanted == (|i: PieceIndex| self@.contains(i.value)),
                find_pieces@ == indexs@.take(i as int).filter(wanted),
            decreases indexs.len() - i,
        {
            let index = indexs[i];
            proof {
                reveal(Seq::filter);
                assert(indexs@.take(i + 1).drop_last() =~= indexs@.take(i as int));
            }
            if self.has_piece(&index) {
                find_pieces.push(index);
            }
            i += 1;
        }
        proof {
            assert(indexs@.take(indexs@.len() as int) =~= indexs@);
        }
        find_pieces
    }

    /// How many pieces are known to be on disk.
    pub fn piece_count(&self) -> (r: usize)
        ensures
            r == self@.len(),
    {
        self.pieces.len()
    }

    /// The greatest index of a piece that is known to be on disk, zero if there is none.
    pub fn max_piece_index(&self) -> (r: PieceIndex)
        ensures
            is_greatest(self@, r.value),
            forall|i: u64| #[trigger] self@.contains(i) ==> i <= r.value,
            r.value > 0 ==> self@.contains(r.value),
    {
        let mut greatest: u64 = 0;
        let ghost all = vstd::std_specs::iter::IteratorSpec::remaining(
            &vstd::std_specs::hash::spec_hash_keys_iter(&self.pieces),
        );
        let ghost mut seen: int = 0;
        for piece in it: self.pieces.iter()
            invariant
                all == vstd::std_specs::iter::IteratorSpec::remaining(
                    &vstd::std_specs::hash::spec_hash_keys_iter(&self.pieces),
                ),
                it.seq() == all,
                seen == it.index(),
                forall|k: int| 0 <= k < seen ==> *(#[trigger] all[k]) <= greatest,
                seen == 0 ==> greatest == 0,
                seen > 0 ==> exists|k: int| 0 <= k < seen && *(#[trigger] all[k]) == greatest,
        {
            assert(all[seen] == piece);
            if *piece >= greatest {
                greatest = *piece;
            }
            proof {
                seen = seen + 1;
            }
        }
        proof {
            let values = all.unref();
            assert(values.to_set() == self@);
            assert forall|i: u64| #[trigger] self@.contains(i) implies i <= greatest by {
                assert(values.contains(i));
                let k = choose|k: int| 0 <= k < values.len() && values[k] == i;
                assert(*all[k] == i);
            }
            if seen > 0 {
                let k = choose|k: int| 0 <= k < seen && *(#[trigger] all[k]) == greatest;
                assert(values[k] == greatest);
                assert(values.contains(greatest));
            } else {
                assert(self@ =~= Set::<u64>::empty());
            }
        }
        PieceIndex::from(greatest)
    }

    /// Where the cache keeps a piece: its segment's directory, its file and its checksum's file.
    pub fn piece_path(&self, index: &PieceIndex) -> (r: PiecePath)
        ensures
            r.segment_dir@ == segment_dir_of(index.value),
            r.piece@ == piece_place(index.value),
            r.checksum@ == checksum_place(index.value),
    {
        crate::paths::piece_path(*index)
    }

    /// The record that the cache provides to the network under a key: there is none under any.
    pub fn record(&self, _key: &[u8]) -> (r: Option<Vec<u8>>)
        ensures
            r is None,
    {
        None
    }

    /// Starts to look for pieces on disk; `verify` says whether checksums are compared.
    pub fn load_piece(&self, verify: bool) -> (r: PieceLoad)
        ensures
            r@ == load_started(verify),
    {
        PieceLoad::start(verify)
    }

    /// Takes in the pieces that a loading found, and says how it ended.
    pub fn finish_load(&mut self, load: PieceLoad) -> (r: LoadEnd)
        requires
            load@.action() is None,
        ensures
            final(self)@ == old(self)@.union(load@.found.to_set()),
            r is Loaded <==> load@.step is Loaded,
            r is Failed <==> load@.step is Failed,
            r is Fault <==> load@.step is Fault,
            r is Fault ==> r->Fault_0 == load@.step->Fault_0,
    {
        let (end, found) = load.result();
        let mut i: usize = 0;
        proof {
            assert(found@.take(0).to_set() =~= Set::<u64>::empty());
            assert(self@ =~= old(self)@.union(found@.take(0).to_set()));
        }
        while i < found.len()
            invariant
                i <= found.len(),
                self@ == old(self)@.union(found@.take(i as int).to_set()),
            decreases found.len() - i,
        {
            self.pieces.insert(found[i]);
            proof {
                let shorter = found@.take(i as int);
                let longer = found@.take(i + 1);
                assert(longer =~= shorter.push(found@[i as int]));
                assert forall|x: u64| #[trigger] longer.to_set().contains(x) <==> (
                shorter.to_set().contains(x) || x == found@[i as int]) by {
                    if shorter.contains(x) {
                        let k = choose|k: int| 0 <= k < shorter.len() && shorter[k] == x;
                        assert(longer[k] == x);
                    }
                    assert(longer[i as int] == found@[i as int]);
                }
                assert(self@ =~= old(self)@.union(longer.to_set()));
            }
            i += 1;
        }
        proof {
            assert(found@.take(found@.len() as int) =~= found@);
        }
        end
    }

    /// Starts to read a piece.
    pub fn get_piece(&self, piece_index: &PieceIndex) -> (r: PieceGet)
        ensures
            r@ == get_started(piece_index.value),
    {
        PieceGet::start(*piece_index)
    }

    /// Starts to read a piece and to compare it with its checksum.
    pub fn get_piece_and_check(&self, piece_index: &PieceIndex) -> (r: PieceCheck)
        ensures
            r@ == check_started(piece_index.value),
    {
        PieceCheck::start(*piece_index)
    }

    /// Hands out what was read; a piece that did not match its checksum is no longer held.
    pub fn finish_check(&mut self, check: PieceCheck) -> (r: Result<Piece, ReadError>)
        requires
            check@.action() is None,
        ensures
            check@.step == CheckStep::Over(checked(r)),
            r == Err::<Piece, ReadError>(ReadError::ChecksumMismatch) ==> final(self)@ == old(
                self,
            )@.remove(check@.index),
            r != Err::<Piece, ReadError>(ReadError::ChecksumMismatch) ==> final(self)@ == old(
                self,
            )@,
    {
        let index = check.index();
        let r = check.result();
        match &r {
            Err(ReadError::ChecksumMismatch) => {
                self.pieces.remove(&index.value);
            },
            _ => {},
        }
        r
    }

    /// Starts to save a piece.
    pub fn save_piece(&self, piece_index: PieceIndex, piece: Piece) -> (r: PieceSave)
        ensures
            r@ == save_started(piece_index.value, piece@),
    {
        PieceSave::start(piece_index, piece)
    }

    /// Takes in a piece that was saved; says whether it was.
    pub fn finish_save(&mut self, save: PieceSave) -> (r: bool)
        requires
            save@.action() is None,
        ensures
            r == (save@.stage == SaveStage::Saved),
            r ==> final(self)@ == old(self)@.insert(save@.index),
            !r ==> final(self)@ == old(self)@,
    {
        match save.stage() {
            SaveStage::Saved => {
                self.pieces.insert(save.index().value);
                true
            },
            _ => false,
        }
    }
}

/// An index is named exactly if it is held, as often as it is asked for and in the order in which
/// it is asked for.
pub proof fn law_held_pieces_are_named_in_order(
    pieces: Set<u64>,
    asked: Seq<PieceIndex>,
    next: PieceIndex,
)
    ensures
        held(pieces, seq![]) == Seq::<PieceIndex>::empty(),
        pieces.contains(next.value) ==> held(pieces, asked.push(next)) == held(pieces, asked).push(
            next,
        ),
        !pieces.contains(next.value) ==> held(pieces, asked.push(next)) == held(pieces, asked),
{
    reveal(Seq::filter);
    assert(asked.push(next).drop_last() =~= asked);
}

/// The greatest piece is held, unless none is, and none that is held is greater.
pub proof fn law_none_is_greater(pieces: Set<u64>, greatest: u64, other: u64)
    requires
        is_greatest(pieces, greatest),
    ensures
        pieces.contains(other) ==> other <= greatest,
        pieces.contains(other) ==> pieces.contains(greatest),
        greatest > 0 ==> pieces.contains(greatest),
{
}

} // verus!
