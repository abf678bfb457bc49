//! What the cache promises across its operations.

use crate::checksum::{blake3_digest, checksum_of, law_checksum_tells_pieces_apart};
use crate::disk::{completes, follows, outcome, Action, Disk, Place, Reply};
use crate::load::load_started;
use crate::paths::{
    checksum_place, law_checksum_file_names_no_piece, law_piece_file_is_named_for_its_piece,
    law_places_are_distinct, piece_place, segment_dir_of,
};
use crate::primitives::{little_endian_value, PIECE_SIZE};
use crate::read::{
    check_started, get_started, intact, law_check_gives_intact_pieces_only,
    law_check_without_files, law_get_reads_the_file, CheckStep, GetStep, ReadError,
};
use crate::recovery::{
    condemned, corrupt, discarded, full, law_load_finds_usable_pieces, left_by_load,
    lemma_discarded, lemma_without, misfit, orderly, same_at, stands_for, taken_in,
};
use crate::save::{
    disk_with_piece, law_save_writes_piece_and_checksum, save_started, SaveStage,
};
use vstd::prelude::*;

verus! {

/// Whether there is a file of every piece that the cache holds to be on disk.
pub open spec fn backed(pieces: Set<u64>, disk: Disk) -> bool {
    forall|i: u64| #[trigger] pieces.contains(i) ==> disk.has(piece_place(i))
}

/// Saving changes nothing but the files of the piece that is saved.
pub proof fn law_save_leaves_other_files_alone(
    disk: Disk,
    index: u64,
    piece: Seq<u8>,
    place: Place,
)
    requires
        place != piece_place(index),
        place != checksum_place(index),
    ensures
        same_at(disk, disk_with_piece(disk, index, piece), place),
{
    law_places_are_distinct(index, index);
}

/// A piece that is saved where there was no file of it is read back as it is: by plain reading and
/// by checked reading.
pub proof fn law_saved_piece_is_read_back(
    disk: Disk,
    index: u64,
    piece: Seq<u8>,
    save_replies: Seq<Reply>,
    get_replies: Seq<Reply>,
    check_replies: Seq<Reply>,
)
    requires
        piece.len() == PIECE_SIZE,
        !disk.has(piece_place(index)),
        completes(save_started(index, piece), disk, save_replies),
        completes(
            get_started(index),
            outcome(save_started(index, piece), disk, save_replies).1,
            get_replies,
        ),
        completes(
            check_started(index),
            outcome(save_started(index, piece), disk, save_replies).1,
            check_replies,
        ),
    ensures
        outcome(
            get_started(index),
            outcome(save_started(index, piece), disk, save_replies).1,
            get_replies,
        ).0.step == GetStep::Over(Ok(Some(piece))),
        outcome(
            check_started(index),
            outcome(save_started(index, piece), disk, save_replies).1,
            check_replies,
        ).0.step == CheckStep::Over(Ok(piece)),
{
    let saved = outcome(save_started(index, piece), disk, save_replies).1;
    law_save_writes_piece_and_checksum(disk, index, piece, save_replies);
    law_places_are_distinct(index, index);
    assert(saved.has(piece_place(index)));
    assert(saved.content(piece_place(index)) == piece);
    assert(saved.has(checksum_place(index)));
    assert(saved.content(checksum_place(index)) == checksum_of(index, piece));
    law_get_reads_the_file(saved, index, get_replies);
    law_check_gives_intact_pieces_only(saved, index, check_replies);
}

/// Saving a piece twice is saving it once: the second time nothing is written, whatever is to be
/// saved then.
pub proof fn law_saving_again_changes_nothing(
    disk: Disk,
    index: u64,
    piece: Seq<u8>,
    other: Seq<u8>,
)
    ensures
        disk_with_piece(disk_with_piece(disk, index, piece), index, other) == disk_with_piece(
            disk,
            index,
            piece,
        ),
{
    law_places_are_distinct(index, index);
}

/// Saving keeps the files in order: if checksums could be compared throughout before, they can be
/// afterwards.
pub proof fn law_save_keeps_files_in_order(disk: Disk, index: u64, piece: Seq<u8>)
    requires
        orderly(disk),
    ensures
        orderly(disk_with_piece(disk, index, piece)),
{
    let saved = disk_with_piece(disk, index, piece);
    law_places_are_distinct(index, index);
    law_piece_file_is_named_for_its_piece(index);
    law_checksum_file_names_no_piece(index);
    if !disk.has(piece_place(index)) {
        assert forall|place: Place, i: u64| #[trigger] stands_for(saved, place, i) implies full(
            saved,
            i,
        ) && saved.has(checksum_place(i)) && (place == piece_place(i) || intact(saved, i)) by {
            if place != piece_place(index) {
                assert(place != checksum_place(index));
                law_save_leaves_other_files_alone(disk, index, piece, place);
                assert(stands_for(disk, place, i));
                assert(i != index);
                law_places_are_distinct(i, index);
                law_places_are_distinct(index, i);
                law_save_leaves_other_files_alone(disk, index, piece, piece_place(i));
                law_save_leaves_other_files_alone(disk, index, piece, checksum_place(i));
            }
        }
    }
}

/// A saving that is broken off after some of its actions keeps the files in order, too: the
/// checksum is there before the piece is.
pub proof fn law_interrupted_save_keeps_files_in_order(
    disk: Disk,
    index: u64,
    piece: Seq<u8>,
    replies: Seq<Reply>,
)
    requires
        orderly(disk),
        follows(save_started(index, piece), disk, replies),
    ensures
        orderly(outcome(save_started(index, piece), disk, replies).1),
        outcome(save_started(index, piece), disk, replies).0.stage != SaveStage::Saved ==> !outcome(
            save_started(index, piece),
            disk,
            replies,
        ).1.has(piece_place(index)) || disk.has(piece_place(index)),
{
    reveal_with_fuel(follows, 7);
    reveal_with_fuel(outcome, 7);
    let dir = segment_dir_of(index);
    let after = outcome(save_started(index, piece), disk, replies).1;
    let ready = disk.after(Action::CreateDir(dir));
    let half = ready.with(checksum_place(index), checksum_of(index, piece));
    law_places_are_distinct(index, index);
    law_checksum_file_names_no_piece(index);
    assert(after == disk || after == ready || (after == half && !disk.has(piece_place(index)))
        || after == disk_with_piece(disk, index, piece));
    law_save_keeps_files_in_order(disk, index, piece);
    assert forall|place: Place| #[trigger] ready.has(place) == disk.has(place) by {}
    assert forall|place: Place| #[trigger] disk.has(place) implies ready.content(place)
        == disk.content(place) by {}
    assert forall|place: Place, i: u64| #[trigger] stands_for(ready, place, i) implies full(
        ready,
        i,
    ) && ready.has(checksum_place(i)) && (place == piece_place(i) || intact(ready, i)) by {
        assert(disk.has(place));
        assert(stands_for(disk, place, i));
        assert(disk.has(piece_place(i)) && disk.has(checksum_place(i)));
    }
    if !disk.has(piece_place(index)) {
        assert forall|place: Place| place != checksum_place(index) implies #[trigger] same_at(
            ready,
            half,
            place,
        ) by {}
        assert forall|place: Place, i: u64| #[trigger] stands_for(half, place, i) implies full(
            half,
            i,
        ) && half.has(checksum_place(i)) && (place == piece_place(i) || intact(half, i)) by {
            assert(place != checksum_place(index));
            assert(same_at(ready, half, place));
            assert(stands_for(ready, place, i));
            assert(ready.has(piece_place(i)));
            assert(i != index);
            law_places_are_distinct(i, index);
            law_places_are_distinct(index, i);
            assert(same_at(ready, half, piece_place(i)));
            assert(same_at(ready, half, checksum_place(i)));
        }
    }
}

/// A saved piece of which any byte has changed since is told by checked reading, which then removes
/// it with its checksum, unless the digest agrees on two different runs of bytes.
pub proof fn law_changed_piece_is_noticed(
    disk: Disk,
    index: u64,
    piece: Seq<u8>,
    changed: Seq<u8>,
    save_replies: Seq<Reply>,
    check_replies: Seq<Reply>,
)
    requires
        !disk.has(piece_place(index)),
        piece != changed,
        forall|x: Seq<u8>, y: Seq<u8>|
            x.len() == 8 + piece.len() && x.skip(8) == piece && little_endian_value(x.take(8))
                == index && y.len() == 8 + changed.len() && y.skip(8) == changed
                && little_endian_value(y.take(8)) == index && #[trigger] blake3_digest(x)
                == #[trigger] blake3_digest(y) ==> x == y,
        completes(save_started(index, piece), disk, save_replies),
        completes(
            check_started(index),
            outcome(save_started(index, piece), disk, save_replies).1.with(
                piece_place(index),
                changed,
            ),
            check_replies,
        ),
    ensures
        ({
            let damaged = outcome(save_started(index, piece), disk, save_replies).1.with(
                piece_place(index),
                changed,
            );
            let end = outcome(check_started(index), damaged, check_replies);
            &&& end.0.step == CheckStep::Over(Err(ReadError::ChecksumMismatch))
            &&& !end.1.has(piece_place(index))
            &&& !end.1.has(checksum_place(index))
        }),
{
    let saved = outcome(save_started(index, piece), disk, save_replies).1;
    let damaged = saved.with(piece_place(index), changed);
    law_save_writes_piece_and_checksum(disk, index, piece, save_replies);
    law_places_are_distinct(index, index);
    assert(damaged.has(piece_place(index)));
    assert(damaged.content(piece_place(index)) == changed);
    assert(damaged.has(checksum_place(index)));
    assert(damaged.content(checksum_place(index)) == checksum_of(index, piece));
    if checksum_of(index, piece) == checksum_of(index, changed) {
        law_checksum_tells_pieces_apart(index, piece, index, changed);
    }
    law_check_gives_intact_pieces_only(damaged, index, check_replies);
    lemma_without(damaged, piece_place(index));
    lemma_without(damaged.without(piece_place(index)), checksum_place(index));
    assert(!damaged.without(piece_place(index)).without(checksum_place(index)).has(
        piece_place(index),
    )) by {
        assert(same_at(
            damaged.without(piece_place(index)),
            damaged.without(piece_place(index)).without(checksum_place(index)),
            piece_place(index),
        ));
    }
}

/// Checked reading keeps the files in order.
pub proof fn law_check_keeps_files_in_order(disk: Disk, index: u64, replies: Seq<Reply>)
    requires
        orderly(disk),
        completes(check_started(index), disk, replies),
    ensures
        orderly(outcome(check_started(index), disk, replies).1),
{
    law_check_without_files(disk, index, replies);
    if disk.has(piece_place(index)) && disk.has(checksum_place(index)) {
        law_check_gives_intact_pieces_only(disk, index, replies);
        if !intact(disk, index) {
            let half = disk.without(piece_place(index));
            let rest = half.without(checksum_place(index));
            lemma_without(disk, piece_place(index));
            lemma_without(half, checksum_place(index));
            assert forall|place: Place|
                place != piece_place(index) && place != checksum_place(
                    index,
                ) implies #[trigger] same_at(disk, rest, place) by {
                assert(same_at(disk, half, place));
                assert(same_at(half, rest, place));
            }
            assert forall|place: Place, i: u64| #[trigger] stands_for(rest, place, i) implies full(
                rest,
                i,
            ) && rest.has(checksum_place(i)) && (place == piece_place(i) || intact(rest, i)) by {
                assert(half.has(place));
                assert(place != piece_place(index));
                assert(place != checksum_place(index));
                assert(same_at(disk, rest, place));
                assert(stands_for(disk, place, i));
                assert(i != index);
                law_places_are_distinct(i, index);
                law_places_are_distinct(index, i);
                assert(same_at(disk, rest, piece_place(i)));
                assert(same_at(disk, rest, checksum_place(i)));
            }
        }
    }
}

/// A piece that was saved is found again by the loading that follows, whether or not checksums are
/// compared.
pub proof fn law_saved_piece_is_found_again(
    disk: Disk,
    index: u64,
    piece: Seq<u8>,
    verify: bool,
    save_replies: Seq<Reply>,
    load_replies: Seq<Reply>,
)
    requires
        verify ==> orderly(disk),
        piece.len() == PIECE_SIZE,
        !disk.has(piece_place(index)),
        completes(save_started(index, piece), disk, save_replies),
        completes(
            load_started(verify),
            outcome(save_started(index, piece), disk, save_replies).1,
            load_replies,
        ),
    ensures
        outcome(
            load_started(verify),
            outcome(save_started(index, piece), disk, save_replies).1,
            load_replies,
        ).0.step is Loaded,
        outcome(
            load_started(verify),
            outcome(save_started(index, piece), disk, save_replies).1,
            load_replies,
        ).0.found.contains(index),
{
    let saved = outcome(save_started(index, piece), disk, save_replies).1;
    law_save_writes_piece_and_checksum(disk, index, piece, save_replies);
    assert(saved == disk_with_piece(disk, index, piece));
    if verify {
        law_save_keeps_files_in_order(disk, index, piece);
    }
    law_places_are_distinct(index, index);
    law_piece_file_is_named_for_its_piece(index);
    law_load_finds_usable_pieces(saved, verify, load_replies);
    assert(stands_for(saved, piece_place(index), index));
    assert(taken_in(saved, verify, index));
}

/// Saving keeps the cache backed by files, the piece that it takes in among them.
pub proof fn law_save_keeps_cache_backed(
    pieces: Set<u64>,
    disk: Disk,
    index: u64,
    piece: Seq<u8>,
    replies: Seq<Reply>,
)
    requires
        backed(pieces, disk),
        completes(save_started(index, piece), disk, replies),
    ensures
        outcome(save_started(index, piece), disk, replies).0.stage == SaveStage::Saved,
        backed(pieces.insert(index), outcome(save_started(index, piece), disk, replies).1),
{
    law_save_writes_piece_and_checksum(disk, index, piece, replies);
    let saved = disk_with_piece(disk, index, piece);
    assert forall|i: u64| #[trigger] pieces.insert(index).contains(i) implies saved.has(
        piece_place(i),
    ) by {
        law_places_are_distinct(i, index);
        law_places_are_distinct(index, index);
        if i != index {
            assert(pieces.contains(i));
            law_save_leaves_other_files_alone(disk, index, piece, piece_place(i));
        }
    }
}

/// The pieces that the cache holds after the checked reading of piece `index` came to `step`.
pub open spec fn pieces_after_check(pieces: Set<u64>, index: u64, step: CheckStep) -> Set<u64> {
    if step == CheckStep::Over(Err(ReadError::ChecksumMismatch)) {
        pieces.remove(index)
    } else {
        pieces
    }
}

/// Checked reading keeps the cache backed by files: a piece whose files it removes is no longer
/// held.
pub proof fn law_check_keeps_cache_backed(
    pieces: Set<u64>,
    disk: Disk,
    index: u64,
    replies: Seq<Reply>,
)
    requires
        backed(pieces, disk),
        completes(check_started(index), disk, replies),
    ensures
        backed(
            pieces_after_check(
                pieces,
                index,
                outcome(check_started(index), disk, replies).0.step,
            ),
            outcome(check_started(index), disk, replies).1,
        ),
{
    law_check_without_files(disk, index, replies);
    if disk.has(piece_place(index)) && disk.has(checksum_place(index)) {
        law_check_gives_intact_pieces_only(disk, index, replies);
        if !intact(disk, index) {
            let swept_disk = disk.without(piece_place(index)).without(checksum_place(index));
            assert forall|i: u64| #[trigger] pieces.remove(index).contains(
                i,
            ) implies swept_disk.has(piece_place(i)) by {
                assert(pieces.contains(i));
                law_places_are_distinct(i, index);
            }
        }
    }
}

/// Whether every piece that a file stands for is on disk in full under its own name.
pub open spec fn covered(disk: Disk) -> bool {
    forall|place: Place, i: u64| #[trigger] stands_for(disk, place, i) ==> full(disk, i)
}

/// After loading, the cache is backed by files, if every piece that a file stood for was on disk in
/// full under its own name.
pub proof fn law_loaded_cache_is_backed(disk: Disk, verify: bool, replies: Seq<Reply>)
    requires
        covered(disk),
        verify ==> orderly(disk),
        completes(load_started(verify), disk, replies),
    ensures
        backed(
            outcome(load_started(verify), disk, replies).0.found.to_set(),
            outcome(load_started(verify), disk, replies).1,
        ),
{
    law_load_finds_usable_pieces(disk, verify, replies);
    let found = outcome(load_started(verify), disk, replies).0.found;
    let after = outcome(load_started(verify), disk, replies).1;
    assert forall|i: u64| #[trigger] found.to_set().contains(i) implies after.has(
        piece_place(i),
    ) by {
        assert(found.contains(i));
        assert(taken_in(disk, verify, i));
        let place = choose|place: Place| stands_for(disk, place, i);
        assert(full(disk, i));
        law_piece_file_is_named_for_its_piece(i);
        lemma_discarded(disk, verify, piece_place(i), i);
        assert(left_by_load(disk, after, verify, piece_place(i)));
    }
}

/// What a loading that compares checksums leaves is without corrupt pieces, and what it leaves of a
/// piece is what there was of it.
proof fn lemma_left_in_order(disk: Disk, after: Disk, place: Place, i: u64)
    requires
        orderly(disk),
        forall|place: Place| #[trigger] left_by_load(disk, after, true, place),
        stands_for(after, place, i),
    ensures
        stands_for(disk, place, i),
        intact(disk, i),
        same_at(disk, after, piece_place(i)),
        same_at(disk, after, checksum_place(i)),
        full(after, i),
        after.has(checksum_place(i)),
        intact(after, i),
{
    assert(left_by_load(disk, after, true, place));
    assert(stands_for(disk, place, i));
    law_piece_file_is_named_for_its_piece(i);
    lemma_discarded(disk, true, place, i);
    lemma_discarded(disk, true, piece_place(i), i);
    assert(left_by_load(disk, after, true, piece_place(i)));
    assert(left_by_load(disk, after, true, checksum_place(i)));
}

/// Loading that compares checksums keeps the files in order.
pub proof fn law_load_keeps_files_in_order(disk: Disk, replies: Seq<Reply>)
    requires
        orderly(disk),
        completes(load_started(true), disk, replies),
    ensures
        orderly(outcome(load_started(true), disk, replies).1),
{
    let after = outcome(load_started(true), disk, replies).1;
    law_load_finds_usable_pieces(disk, true, replies);
    assert forall|place: Place, i: u64| #[trigger] stands_for(after, place, i) implies full(
        after,
        i,
    ) && after.has(checksum_place(i)) && (place == piece_place(i) || intact(after, i)) by {
        lemma_left_in_order(disk, after, place, i);
    }
}

/// Loading again, with nothing in between, finds the same pieces and changes no file. Where
/// checksums are not compared this holds of every disk.
pub proof fn law_loading_again_finds_the_same(
    disk: Disk,
    verify: bool,
    replies: Seq<Reply>,
    later_replies: Seq<Reply>,
)
    requires
        verify ==> orderly(disk),
        completes(load_started(verify), disk, replies),
        completes(
            load_started(verify),
            outcome(load_started(verify), disk, replies).1,
            later_replies,
        ),
    ensures
        outcome(
            load_started(verify),
            outcome(load_started(verify), disk, replies).1,
            later_replies,
        ).0.found.to_set() == outcome(load_started(verify), disk, replies).0.found.to_set(),
        forall|place: Place| #[trigger]
            same_at(
                outcome(load_started(verify), disk, replies).1,
                outcome(
                    load_started(verify),
                    outcome(load_started(verify), disk, replies).1,
                    later_replies,
                ).1,
                place,
            ),
{
    let s = load_started(verify);
    let first = outcome(s, disk, replies);
    let second = outcome(s, first.1, later_replies);
    law_load_finds_usable_pieces(disk, verify, replies);
    if verify {
        law_load_keeps_files_in_order(disk, replies);
    }
    law_load_finds_usable_pieces(first.1, verify, later_replies);
    assert forall|i: u64| #[trigger] taken_in(first.1, verify, i) == taken_in(
        disk,
        verify,
        i,
    ) by {
        if taken_in(first.1, verify, i) {
            let place = choose|place: Place| stands_for(first.1, place, i);
            assert(left_by_load(disk, first.1, verify, place));
            assert(stands_for(disk, place, i));
            if verify {
                lemma_left_in_order(disk, first.1, place, i);
            }
        }
        if taken_in(disk, verify, i) {
            let place = choose|place: Place| stands_for(disk, place, i);
            lemma_discarded(disk, verify, place, i);
            assert(left_by_load(disk, first.1, verify, place));
            assert(stands_for(first.1, place, i));
            if verify {
                lemma_left_in_order(disk, first.1, place, i);
            }
        }
    }
    assert forall|i: u64| second.0.found.to_set().contains(i) == first.0.found.to_set().contains(
        i,
    ) by {
        assert(second.0.found.contains(i) == taken_in(first.1, verify, i));
        assert(first.0.found.contains(i) == taken_in(disk, verify, i));
    }
    assert(second.0.found.to_set() =~= first.0.found.to_set());
    assert forall|place: Place| #[trigger] same_at(first.1, second.1, place) by {
        assert(left_by_load(disk, first.1, verify, place));
        assert(left_by_load(first.1, second.1, verify, place));
        if discarded(first.1, verify, place) && !misfit(first.1, place) {
            let i = choose|i: u64| condemned(first.1, verify, i, place);
            assert(corrupt(first.1, verify, i));
            law_piece_file_is_named_for_its_piece(i);
            lemma_left_in_order(disk, first.1, piece_place(i), i);
        }
    }
}

} // verus!
