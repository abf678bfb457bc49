//! What loading finds on a disk, and what it leaves there.

use crate::disk::{
    completes, lists, outcome, Action, Disk, Entry, EntryKind, Operation, Place, Reply,
};
use crate::load::{candidates, directories, load_started, Candidate, LoadStep, Loading};
use crate::paths::{
    checksum_place, law_checksum_file_names_no_piece, law_piece_file_is_named_for_its_piece,
    law_places_are_distinct, named_piece, piece_place,
};
use crate::primitives::PIECE_SIZE;
use crate::read::intact;
use vstd::prelude::*;

verus! {

/// Whether `place` is where the cache keeps piece `i` or its checksum.
pub open spec fn keeps(i: u64, place: Place) -> bool {
    place == piece_place(i) || place == checksum_place(i)
}

/// Whether there is a file of piece `i` that is as long as a piece.
pub open spec fn full(disk: Disk, i: u64) -> bool {
    disk.has(piece_place(i)) && disk.content(piece_place(i)).len() == PIECE_SIZE
}

/// Whether there is a file at `place` that is named like a piece, wherever it stands and however
/// its number is written.
pub open spec fn piece_named(disk: Disk, place: Place) -> bool {
    disk.has(place) && named_piece(place.name) is Some
}

/// Whether there is a file at `place` that is named like a piece and not as long as one.
pub open spec fn misfit(disk: Disk, place: Place) -> bool {
    piece_named(disk, place) && disk.content(place).len() != PIECE_SIZE
}

/// Whether there is a file at `place` that is named like piece `i` and as long as a piece.
pub open spec fn stands_for(disk: Disk, place: Place, i: u64) -> bool {
    &&& disk.has(place)
    &&& named_piece(place.name) == Some(i)
    &&& disk.content(place).len() == PIECE_SIZE
}

/// Whether checksums can be compared throughout: whenever a file stands for a piece, that piece is
/// on disk in full and its checksum beside it, and if the file is not the piece's own, the two
/// match. Whatever is not named like a piece, or not as long as one, does not matter.
pub open spec fn orderly(disk: Disk) -> bool {
    forall|place: Place, i: u64| #[trigger]
        stands_for(disk, place, i) ==> full(disk, i) && disk.has(checksum_place(i)) && (place
            == piece_place(i) || intact(disk, i))
}

/// Whether piece `i` is on disk in full and checksums are compared, and its own does not match.
pub open spec fn corrupt(disk: Disk, verify: bool, i: u64) -> bool {
    full(disk, i) && verify && !intact(disk, i)
}

/// Whether `place` is where the cache keeps piece `i`, which is corrupt, or its checksum.
pub open spec fn condemned(disk: Disk, verify: bool, i: u64, place: Place) -> bool {
    corrupt(disk, verify, i) && keeps(i, place)
}

/// Whether loading removes the file at `place`: it is named like a piece and not as long as one, or
/// it belongs to a piece that is corrupt.
pub open spec fn discarded(disk: Disk, verify: bool, place: Place) -> bool {
    misfit(disk, place) || exists|i: u64| condemned(disk, verify, i, place)
}

/// Whether loading takes piece `i` in: some file stands for it and, if checksums are compared, its
/// own matches.
pub open spec fn taken_in(disk: Disk, verify: bool, i: u64) -> bool {
    (exists|place: Place| stands_for(disk, place, i)) && (verify ==> intact(disk, i))
}

/// Whether `new_disk` holds at `place` what `old_disk` holds there.
pub open spec fn same_at(old_disk: Disk, new_disk: Disk, place: Place) -> bool {
    &&& new_disk.has(place) == old_disk.has(place)
    &&& old_disk.has(place) ==> new_disk.content(place) == old_disk.content(place)
}

/// Whether `new_disk` holds at `place` what loading leaves of what `old_disk` holds there: nothing
/// if it is discarded, and otherwise the same.
pub open spec fn left_by_load(old_disk: Disk, new_disk: Disk, verify: bool, place: Place) -> bool {
    &&& discarded(old_disk, verify, place) ==> !new_disk.has(place)
    &&& !discarded(old_disk, verify, place) ==> same_at(old_disk, new_disk, place)
}

/// Whether `disk` holds nothing that `start` does not hold.
spec fn reduced(start: Disk, disk: Disk) -> bool {
    forall|place: Place| #[trigger]
        disk.has(place) ==> start.has(place) && disk.content(place) == start.content(place)
}

/// Whether one of `files` is named `name`.
spec fn among(files: Seq<Candidate>, name: Seq<char>) -> bool {
    exists|k: int| 0 <= k < files.len() && (#[trigger] files[k]).name == name
}

/// Whether the file at `place`, which is named like a piece, is still to be looked at.
spec fn pending(start: Disk, s: Loading, place: Place) -> bool {
    &&& piece_named(start, place)
    &&& {
        ||| s.step is ListRoot
        ||| s.segments.contains(place.dir)
        ||| place.dir == s.dir && among(s.files, place.name)
    }
}

/// The file that is being looked at.
spec fn at_hand(s: Loading) -> Place {
    Place { dir: s.dir, name: s.files[0].name }
}

/// What is known of the file that is being looked at.
spec fn step_fits(start: Disk, s: Loading, disk: Disk) -> bool {
    let place = at_hand(s);
    let i = s.files[0].index;
    match s.step {
        LoadStep::ListRoot => s.segments.len() == 0 && s.files.len() == 0,
        LoadStep::ListSegment => s.segments.len() > 0 && s.files.len() == 0,
        LoadStep::AskSize => s.files.len() > 0,
        LoadStep::Discard => s.files.len() > 0 && misfit(start, place),
        LoadStep::ReadChecksum => s.files.len() > 0 && s.verify && stands_for(start, place, i),
        LoadStep::ReadPiece(expected) => s.files.len() > 0 && s.verify && stands_for(
            start,
            place,
            i,
        ) && expected == start.content(checksum_place(i)),
        LoadStep::RemovePiece => s.files.len() > 0 && corrupt(start, s.verify, i) && place
            == piece_place(i),
        LoadStep::RemoveChecksum => s.files.len() > 0 && corrupt(start, s.verify, i) && place
            == piece_place(i) && !disk.has(place),
        LoadStep::Loaded => s.segments.len() == 0 && s.files.len() == 0,
        LoadStep::Failed => false,
        LoadStep::Fault(_) => false,
    }
}

/// Whether the file at `place` was looked at and stands for piece `i`, which is taken in for it.
spec fn counted(start: Disk, s: Loading, place: Place, i: u64) -> bool {
    stands_for(start, place, i) && !pending(start, s, place) && (s.verify ==> intact(start, i))
}

/// What holds of the lists of a loading that started on `start`.
spec fn lists_fit(start: Disk, s: Loading) -> bool {
    &&& s.segments.no_duplicates()
    &&& forall|k: int|
        0 <= k < s.segments.len() ==> start.dirs.contains_key(#[trigger] s.segments[k])
    &&& s.files.len() > 0 ==> !s.segments.contains(s.dir)
    &&& forall|k: int|
        0 <= k < s.files.len() ==> start.has(
            Place { dir: s.dir, name: (#[trigger] s.files[k]).name },
        ) && named_piece(s.files[k].name) == Some(s.files[k].index)
    &&& forall|k: int, l: int|
        0 <= k < l < s.files.len() ==> (#[trigger] s.files[k]).name != (#[trigger] s.files[l]).name
}

/// What holds of the files at a step of a loading that started on `start`.
spec fn files_fit(start: Disk, s: Loading, disk: Disk) -> bool {
    &&& disk.dirs.dom() == start.dirs.dom()
    &&& reduced(start, disk)
    &&& forall|place: Place| #[trigger]
        pending(start, s, place) && !(s.step is RemoveChecksum && place == at_hand(s))
            ==> disk.has(place)
    &&& forall|place: Place| #[trigger]
        piece_named(start, place) && !pending(start, s, place) ==> disk.has(place) == !discarded(
            start,
            s.verify,
            place,
        )
    &&& forall|i: u64| #[trigger]
        corrupt(start, s.verify, i) ==> disk.has(checksum_place(i)) == pending(
            start,
            s,
            piece_place(i),
        )
    &&& forall|place: Place| #[trigger]
        start.has(place) && named_piece(place.name) is None && !discarded(start, s.verify, place)
            ==> disk.has(place)
}

/// What holds at every step of a loading that started on `start`.
spec fn on_course(start: Disk, verify: bool, s: Loading, disk: Disk) -> bool {
    &&& s.verify == verify
    &&& step_fits(start, s, disk)
    &&& lists_fit(start, s)
    &&& files_fit(start, s, disk)
    &&& forall|i: u64| #[trigger]
        s.found.contains(i) <==> exists|place: Place| counted(start, s, place, i)
}

/// The directories of a listing are the entries of that kind, in order.
proof fn lemma_directories(listing: Seq<Entry>, names: Set<Seq<char>>)
    requires
        lists(listing, EntryKind::Directory, names),
    ensures
        directories(listing).no_duplicates(),
        forall|name: Seq<char>| #[trigger]
            directories(listing).contains(name) <==> names.contains(name),
{
    lemma_directories_of_prefix(listing, names, listing.len() as int);
    assert(listing.take(listing.len() as int) =~= listing);
    assert forall|name: Seq<char>| names.contains(name) implies #[trigger] directories(
        listing,
    ).contains(name) by {
        let i = choose|i: int|
            0 <= i < listing.len() && (#[trigger] listing[i]).kind == EntryKind::Directory
                && listing[i].name == name;
        assert(listing[i].kind == EntryKind::Directory);
    }
}

proof fn lemma_directories_of_prefix(listing: Seq<Entry>, names: Set<Seq<char>>, n: int)
    requires
        lists(listing, EntryKind::Directory, names),
        0 <= n <= listing.len(),
    ensures
        directories(listing.take(n)).no_duplicates(),
        forall|name: Seq<char>| #[trigger]
            directories(listing.take(n)).contains(name) ==> exists|i: int|
                0 <= i < n && (#[trigger] listing[i]).kind == EntryKind::Directory
                    && listing[i].name == name,
        forall|i: int|
            0 <= i < n && (#[trigger] listing[i]).kind == EntryKind::Directory ==> directories(
                listing.take(n),
            ).contains(listing[i].name),
    decreases n,
{
    if n > 0 {
        lemma_directories_of_prefix(listing, names, n - 1);
        let before = directories(listing.take(n - 1));
        let last = listing[n - 1];
        assert(listing.take(n).drop_last() =~= listing.take(n - 1));
        assert(listing.take(n).last() == last);
        let all = directories(listing.take(n));
        if last.kind == EntryKind::Directory {
            assert(all == before.push(last.name));
            assert(!before.contains(last.name)) by {
                if before.contains(last.name) {
                    let i = choose|i: int|
                        0 <= i < n - 1 && (#[trigger] listing[i]).kind == EntryKind::Directory
                            && listing[i].name == last.name;
                    assert(listing[i].name != listing[n - 1].name);
                }
            }
            assert(all[all.len() - 1] == last.name);
            assert forall|name: Seq<char>| #[trigger] all.contains(name) implies exists|i: int|
                0 <= i < n && (#[trigger] listing[i]).kind == EntryKind::Directory
                    && listing[i].name == name by {
                let k = choose|k: int| 0 <= k < all.len() && all[k] == name;
                if k < before.len() {
                    assert(before[k] == name);
                    assert(before.contains(name));
                } else {
                    assert(listing[n - 1].name == name);
                }
            }
            assert forall|i: int|
                0 <= i < n && (#[trigger] listing[i]).kind
                    == EntryKind::Directory implies all.contains(listing[i].name) by {
                if i < n - 1 {
                    assert(before.contains(listing[i].name));
                    let k = choose|k: int| 0 <= k < before.len() && before[k] == listing[i].name;
                    assert(all[k] == listing[i].name);
                }
            }
        }
    }
}

/// Whether `c` stands for a file of `listing`.
spec fn stands_for_entry(listing: Seq<Entry>, c: Candidate) -> bool {
    &&& named_piece(c.name) == Some(c.index)
    &&& exists|i: int|
        0 <= i < listing.len() && (#[trigger] listing[i]).kind == EntryKind::Other
            && listing[i].name == c.name
}

/// The candidates of a listing are the files that are named like pieces, each once.
proof fn lemma_candidates(listing: Seq<Entry>)
    requires
        forall|i: int, j: int|
            0 <= i < j < listing.len() && (#[trigger] listing[i]).kind == EntryKind::Other && (
            #[trigger] listing[j]).kind == EntryKind::Other ==> listing[i].name != listing[j].name,
    ensures
        forall|k: int|
            0 <= k < candidates(listing).len() ==> stands_for_entry(
                listing,
                #[trigger] candidates(listing)[k],
            ),
        forall|i: int|
            0 <= i < listing.len() && (#[trigger] listing[i]).kind == EntryKind::Other
                && named_piece(listing[i].name) is Some ==> among(
                candidates(listing),
                listing[i].name,
            ),
        forall|k: int, l: int|
            0 <= k < l < candidates(listing).len() ==> (#[trigger] candidates(listing)[k]).name
                != (#[trigger] candidates(listing)[l]).name,
    decreases listing.len(),
{
    if listing.len() > 0 {
        let shorter = listing.drop_last();
        let last = listing.last();
        assert forall|i: int, j: int|
            0 <= i < j < shorter.len() && (#[trigger] shorter[i]).kind == EntryKind::Other && (
            #[trigger] shorter[j]).kind == EntryKind::Other implies shorter[i].name
            != shorter[j].name by {
            assert(listing[i] == shorter[i] && listing[j] == shorter[j]);
        }
        lemma_candidates(shorter);
        let before = candidates(shorter);
        let all = candidates(listing);
        let more = last.kind == EntryKind::Other && named_piece(last.name) is Some;
        assert forall|c: Candidate| stands_for_entry(shorter, c) implies stands_for_entry(
            listing,
            c,
        ) by {
            let i = choose|i: int|
                0 <= i < shorter.len() && (#[trigger] shorter[i]).kind == EntryKind::Other
                    && shorter[i].name == c.name;
            assert(listing[i] == shorter[i]);
        }
        assert forall|k: int| 0 <= k < all.len() implies stands_for_entry(
            listing,
            #[trigger] all[k],
        ) by {
            if k < before.len() {
                assert(all[k] == before[k]);
            } else {
                assert(listing[listing.len() - 1].name == all[k].name);
            }
        }
        assert forall|i: int|
            0 <= i < listing.len() && (#[trigger] listing[i]).kind == EntryKind::Other
                && named_piece(listing[i].name) is Some implies among(
            all,
            listing[i].name,
        ) by {
            if i < shorter.len() {
                assert(shorter[i] == listing[i]);
                assert(among(before, listing[i].name));
                let k = choose|k: int|
                    0 <= k < before.len() && (#[trigger] before[k]).name == listing[i].name;
                assert(all[k].name == listing[i].name);
            } else {
                assert(all[before.len() as int].name == listing[i].name);
            }
        }
        assert forall|k: int, l: int| 0 <= k < l < all.len() implies (#[trigger] all[k]).name
            != (#[trigger] all[l]).name by {
            assert(all[k] == before[k]);
            if l < before.len() {
                assert(all[l] == before[l]);
            } else {
                assert(stands_for_entry(shorter, before[k]));
                let i = choose|i: int|
                    0 <= i < shorter.len() && (#[trigger] shorter[i]).kind == EntryKind::Other
                        && shorter[i].name == before[k].name;
                assert(listing[i] == shorter[i]);
                assert(listing[i].name != listing[listing.len() - 1].name);
            }
        }
    }
}

/// Removing a file leaves every other file alone.
pub proof fn lemma_without(disk: Disk, place: Place)
    ensures
        !disk.without(place).has(place),
        disk.without(place).dirs.dom() =~= disk.dirs.dom(),
        forall|other: Place| #[trigger] disk.without(place).has(other) ==> disk.has(other),
        forall|other: Place|
            other != place ==> #[trigger] same_at(disk, disk.without(place), other),
{
    assert forall|other: Place| other != place implies #[trigger] same_at(
        disk,
        disk.without(place),
        other,
    ) by {
        if other.dir == place.dir {
            assert(other.name != place.name);
        }
    }
}

/// A file that is named like a piece is discarded exactly if it is a misfit or its own piece is
/// corrupt and kept there; the checksum of a piece exactly if that piece is corrupt.
pub proof fn lemma_discarded(disk: Disk, verify: bool, place: Place, i: u64)
    ensures
        named_piece(place.name) == Some(i) ==> discarded(disk, verify, place) == (misfit(
            disk,
            place,
        ) || (corrupt(disk, verify, i) && place == piece_place(i))),
        discarded(disk, verify, checksum_place(i)) == corrupt(disk, verify, i),
{
    law_checksum_file_names_no_piece(i);
    if corrupt(disk, verify, i) {
        assert(condemned(disk, verify, i, piece_place(i)));
        assert(condemned(disk, verify, i, checksum_place(i)));
    }
    if exists|j: u64| condemned(disk, verify, j, place) {
        let j = choose|j: u64| condemned(disk, verify, j, place);
        law_piece_file_is_named_for_its_piece(j);
        law_checksum_file_names_no_piece(j);
    }
    if exists|j: u64| condemned(disk, verify, j, checksum_place(i)) {
        let j = choose|j: u64| condemned(disk, verify, j, checksum_place(i));
        law_places_are_distinct(j, i);
    }
}

/// Once a file was dealt with as it should be, turning away from it keeps the loading on course.
proof fn lemma_passed(
    start: Disk,
    verify: bool,
    s: Loading,
    disk: Disk,
    new_disk: Disk,
    keep: bool,
)
    requires
        on_course(start, verify, s, disk),
        s.files.len() > 0,
        !(s.step is ListRoot),
        keep == (stands_for(start, at_hand(s), s.files[0].index) && (verify ==> intact(
            start,
            s.files[0].index,
        ))),
        new_disk.dirs.dom() == start.dirs.dom(),
        new_disk.has(at_hand(s)) == !discarded(start, verify, at_hand(s)),
        corrupt(start, verify, s.files[0].index) && at_hand(s) == piece_place(s.files[0].index)
            ==> !new_disk.has(checksum_place(s.files[0].index)),
        forall|place: Place|
            place != at_hand(s) && !(corrupt(start, verify, s.files[0].index) && at_hand(s)
                == piece_place(s.files[0].index) && place == checksum_place(s.files[0].index))
                ==> #[trigger] same_at(disk, new_disk, place),
        reduced(start, new_disk),
    ensures
        on_course(
            start,
            verify,
            if keep {
                s.kept()
            } else {
                s.passed()
            },
            new_disk,
        ),
{
    let now = at_hand(s);
    let index = s.files[0].index;
    let t = if keep {
        s.kept()
    } else {
        s.passed()
    };
    assert(t.files =~= s.files.skip(1));
    assert(s.files[0].name == now.name);
    assert(start.has(now) && named_piece(now.name) == Some(index));
    assert(among(s.files, now.name));
    assert(pending(start, s, now));
    assert forall|place: Place| #[trigger] pending(start, t, place) == (pending(start, s, place)
        && place != now) by {
        if pending(start, t, place) && place.dir == s.dir && among(t.files, place.name) {
            let k = choose|k: int|
                0 <= k < t.files.len() && (#[trigger] t.files[k]).name == place.name;
            assert(s.files[k + 1] == t.files[k]);
            assert(s.files[0].name != s.files[k + 1].name);
        }
        if pending(start, s, place) && place != now && place.dir == s.dir && among(
            s.files,
            place.name,
        ) {
            let k = choose|k: int|
                0 <= k < s.files.len() && (#[trigger] s.files[k]).name == place.name;
            assert(k > 0);
            assert(t.files[k - 1] == s.files[k]);
        }
    }
    assert forall|k: int| 0 <= k < t.files.len() implies start.has(
        Place { dir: t.dir, name: (#[trigger] t.files[k]).name },
    ) && named_piece(t.files[k].name) == Some(t.files[k].index) by {
        assert(t.files[k] == s.files[k + 1]);
    }
    assert forall|k: int, l: int| 0 <= k < l < t.files.len() implies (#[trigger] t.files[k]).name
        != (#[trigger] t.files[l]).name by {
        assert(t.files[k] == s.files[k + 1] && t.files[l] == s.files[l + 1]);
    }
    law_checksum_file_names_no_piece(index);
    assert(files_fit(start, t, new_disk)) by {
        assert forall|place: Place| #[trigger] pending(start, t, place) implies new_disk.has(
            place,
        ) by {
            assert(same_at(disk, new_disk, place));
        }
        assert forall|place: Place| #[trigger]
            piece_named(start, place) && !pending(start, t, place) implies new_disk.has(place)
            == !discarded(start, verify, place) by {
            if place != now {
                assert(same_at(disk, new_disk, place));
            }
        }
        assert forall|i: u64| #[trigger] corrupt(start, verify, i) implies new_disk.has(
            checksum_place(i),
        ) == pending(start, t, piece_place(i)) by {
            law_places_are_distinct(i, index);
            law_piece_file_is_named_for_its_piece(i);
            law_checksum_file_names_no_piece(i);
            if piece_place(i) != now {
                assert(same_at(disk, new_disk, checksum_place(i)));
            }
        }
        assert forall|place: Place| #[trigger]
            start.has(place) && named_piece(place.name) is None && !discarded(
                start,
                verify,
                place,
            ) implies new_disk.has(place) by {
            lemma_discarded(start, verify, place, index);
            assert(same_at(disk, new_disk, place));
        }
    }
    lemma_found(start, s, t, now, index, keep);
}

/// Taking in the piece of the file at hand, or not, keeps count of what was found.
proof fn lemma_found(start: Disk, s: Loading, t: Loading, now: Place, index: u64, keep: bool)
    requires
        forall|i: u64| #[trigger]
            s.found.contains(i) <==> exists|place: Place| counted(start, s, place, i),
        forall|place: Place| #[trigger]
            pending(start, t, place) == (pending(start, s, place) && place != now),
        t.verify == s.verify,
        named_piece(now.name) == Some(index),
        keep == (stands_for(start, now, index) && (s.verify ==> intact(start, index))),
        t.found == if keep {
            s.found.push(index)
        } else {
            s.found
        },
    ensures
        forall|i: u64| #[trigger]
            t.found.contains(i) <==> exists|place: Place| counted(start, t, place, i),
{
    assert forall|i: u64| #[trigger]
        t.found.contains(i) <==> exists|place: Place| counted(start, t, place, i) by {
        if t.found.contains(i) {
            let k = choose|k: int| 0 <= k < t.found.len() && t.found[k] == i;
            if k < s.found.len() {
                assert(s.found[k] == i);
                assert(s.found.contains(i));
                let place = choose|place: Place| counted(start, s, place, i);
                assert(pending(start, t, place) == (pending(start, s, place) && place != now));
                assert(counted(start, t, place, i));
            } else {
                assert(pending(start, t, now) == (pending(start, s, now) && now != now));
                assert(counted(start, t, now, i));
            }
        }
        if exists|place: Place| counted(start, t, place, i) {
            let place = choose|place: Place| counted(start, t, place, i);
            assert(pending(start, t, place) == (pending(start, s, place) && place != now));
            if place == now {
                assert(keep);
                assert(t.found[s.found.len() as int] == i);
            } else {
                assert(counted(start, s, place, i));
                assert(s.found.contains(i));
                let k = choose|k: int| 0 <= k < s.found.len() && s.found[k] == i;
                assert(t.found[k] == i);
            }
        }
    }
}

/// A step that removes nothing and leaves every file that was pending so keeps the loading on
/// course.
proof fn lemma_nothing_done(start: Disk, verify: bool, s: Loading, disk: Disk, t: Loading)
    requires
        on_course(start, verify, s, disk),
        !(s.step is RemoveChecksum) && !(t.step is RemoveChecksum),
        t.verify == s.verify && t.found == s.found,
        forall|place: Place| #[trigger] pending(start, t, place) == pending(start, s, place),
        step_fits(start, t, disk),
        lists_fit(start, t),
    ensures
        on_course(start, verify, t, disk),
{
    assert forall|i: u64| #[trigger]
        t.found.contains(i) <==> exists|place: Place| counted(start, t, place, i) by {
        if s.found.contains(i) {
            let place = choose|place: Place| counted(start, s, place, i);
            assert(pending(start, t, place) == pending(start, s, place));
            assert(counted(start, t, place, i));
        }
        if exists|place: Place| counted(start, t, place, i) {
            let place = choose|place: Place| counted(start, t, place, i);
            assert(pending(start, t, place) == pending(start, s, place));
            assert(counted(start, s, place, i));
        }
    }
    assert(files_fit(start, t, disk)) by {
        assert forall|place: Place| #[trigger] pending(start, t, place) implies disk.has(place) by {
            assert(pending(start, s, place));
        }
        assert forall|place: Place| #[trigger]
            piece_named(start, place) && !pending(start, t, place) implies disk.has(place)
            == !discarded(start, verify, place) by {
            assert(pending(start, t, place) == pending(start, s, place));
        }
        assert forall|i: u64| #[trigger] corrupt(start, verify, i) implies disk.has(
            checksum_place(i),
        ) == pending(start, t, piece_place(i)) by {
            assert(pending(start, t, piece_place(i)) == pending(start, s, piece_place(i)));
        }
    }
}

/// Listing the directory of the cache sets the course.
proof fn lemma_root_listed(start: Disk, verify: bool, s: Loading, disk: Disk, reply: Reply)
    requires
        on_course(start, verify, s, disk),
        s.step is ListRoot,
        reply is Listing,
        lists(reply->Listing_0, EntryKind::Directory, disk.dirs.dom()),
    ensures
        on_course(start, verify, s.next(reply), disk),
{
    let listing = reply->Listing_0;
    let t = s.next(reply);
    lemma_directories(listing, disk.dirs.dom());
    assert forall|place: Place| #[trigger] pending(start, t, place) == pending(start, s, place) by {
        if piece_named(start, place) {
            assert(directories(listing).contains(place.dir));
        }
    }
    assert forall|k: int| 0 <= k < t.segments.len() implies start.dirs.contains_key(
        #[trigger] t.segments[k],
    ) by {
        assert(t.segments.contains(t.segments[k]));
    }
    lemma_nothing_done(start, verify, s, disk, t);
}

/// Listing a segment's directory keeps the loading on course.
proof fn lemma_segment_listed(start: Disk, verify: bool, s: Loading, disk: Disk, reply: Reply)
    requires
        on_course(start, verify, s, disk),
        s.step is ListSegment,
        reply is Listing,
        lists(reply->Listing_0, EntryKind::Other, disk.dirs[s.segments[0]].dom()),
    ensures
        on_course(start, verify, s.next(reply), disk),
{
    let listing = reply->Listing_0;
    let dir = s.segments[0];
    let names = disk.dirs[dir].dom();
    let t = s.next(reply);
    lemma_candidates(listing);
    assert(start.dirs.contains_key(dir));
    assert(disk.dirs.contains_key(dir));
    assert(t.segments =~= s.segments.skip(1));
    assert forall|k: int| 0 <= k < t.segments.len() implies start.dirs.contains_key(
        #[trigger] t.segments[k],
    ) by {
        assert(t.segments[k] == s.segments[k + 1]);
    }
    assert(!t.segments.contains(dir)) by {
        if t.segments.contains(dir) {
            let k = choose|k: int| 0 <= k < t.segments.len() && t.segments[k] == dir;
            assert(s.segments[k + 1] == s.segments[0]);
        }
    }
    assert forall|name: Seq<char>| #[trigger] s.segments.contains(name) == (t.segments.contains(
        name,
    ) || name == dir) by {
        if s.segments.contains(name) {
            let k = choose|k: int| 0 <= k < s.segments.len() && s.segments[k] == name;
            if k > 0 {
                assert(t.segments[k - 1] == name);
            }
        }
        if t.segments.contains(name) {
            let k = choose|k: int| 0 <= k < t.segments.len() && t.segments[k] == name;
            assert(s.segments[k + 1] == name);
        }
        assert(s.segments[0] == dir);
    }
    assert forall|k: int| 0 <= k < t.files.len() implies start.has(
        Place { dir: t.dir, name: (#[trigger] t.files[k]).name },
    ) && named_piece(t.files[k].name) == Some(t.files[k].index) by {
        assert(stands_for_entry(listing, t.files[k]));
        let j = choose|j: int|
            0 <= j < listing.len() && (#[trigger] listing[j]).kind == EntryKind::Other
                && listing[j].name == t.files[k].name;
        assert(names.contains(listing[j].name));
        assert(disk.has(Place { dir, name: listing[j].name }));
    }
    assert forall|place: Place| #[trigger] pending(start, t, place) == pending(start, s, place) by {
        if piece_named(start, place) && place.dir == dir {
            assert(s.segments.contains(place.dir));
            assert(pending(start, s, place));
            assert(disk.has(place));
            assert(names.contains(place.name));
            let j = choose|j: int|
                0 <= j < listing.len() && (#[trigger] listing[j]).kind == EntryKind::Other
                    && listing[j].name == place.name;
            assert(among(t.files, listing[j].name));
        } else if piece_named(start, place) {
            assert(s.segments.contains(place.dir) == t.segments.contains(place.dir));
        }
    }
    lemma_nothing_done(start, verify, s, disk, t);
}

/// Where checksums are compared, the file at hand stands for a piece that can be read, and so can
/// its checksum.
proof fn lemma_comparable(start: Disk, s: Loading, disk: Disk)
    requires
        orderly(start),
        on_course(start, true, s, disk),
        s.files.len() > 0,
        !(s.step is RemoveChecksum),
        stands_for(start, at_hand(s), s.files[0].index),
    ensures
        disk.has(checksum_place(s.files[0].index)),
        disk.has(piece_place(s.files[0].index)),
        full(start, s.files[0].index),
        intact(start, s.files[0].index) || at_hand(s) == piece_place(s.files[0].index),
{
    let now = at_hand(s);
    let i = s.files[0].index;
    assert(s.files[0].name == now.name);
    assert(among(s.files, now.name));
    assert(pending(start, s, now));
    law_piece_file_is_named_for_its_piece(i);
    law_checksum_file_names_no_piece(i);
    lemma_discarded(start, true, piece_place(i), i);
    if corrupt(start, true, i) {
        assert(now == piece_place(i));
    } else {
        assert(start.has(checksum_place(i)));
        assert(disk.has(checksum_place(i)));
        assert(piece_named(start, piece_place(i)));
    }
}

/// Every step of a loading on a disk in working order keeps it on course.
proof fn lemma_step_on_course(start: Disk, verify: bool, s: Loading, disk: Disk, reply: Reply)
    requires
        verify ==> orderly(start),
        on_course(start, verify, s, disk),
        s.action() is Some,
        disk.answers(s.action()->0, reply),
    ensures
        on_course(start, verify, s.next(reply), disk.after(s.action()->0)),
{
    let i = s.files[0].index;
    let now = at_hand(s);
    let new_disk = disk.after(s.action()->0);
    if s.files.len() > 0 {
        assert(s.files[0].name == now.name);
        assert(start.has(now) && named_piece(now.name) == Some(i));
        assert(among(s.files, now.name));
        assert(pending(start, s, now));
        lemma_discarded(start, verify, now, i);
    }
    match s.step {
        LoadStep::ListRoot => {
            lemma_root_listed(start, verify, s, disk, reply);
        },
        LoadStep::ListSegment => {
            lemma_segment_listed(start, verify, s, disk, reply);
        },
        LoadStep::AskSize => {
            assert(disk.has(now));
            if stands_for(start, now, i) && !verify {
                lemma_passed(start, verify, s, disk, disk, true);
            } else {
                lemma_same_file(start, verify, s, disk, s.next(reply));
            }
        },
        LoadStep::Discard => {
            assert(disk.has(now));
            lemma_without(disk, now);
            lemma_still_reduced(start, disk, now);
            lemma_passed(start, verify, s, disk, new_disk, false);
        },
        LoadStep::ReadChecksum => {
            lemma_comparable(start, s, disk);
            lemma_same_file(start, verify, s, disk, s.next(reply));
        },
        LoadStep::ReadPiece(expected) => {
            lemma_comparable(start, s, disk);
            if intact(start, i) {
                lemma_passed(start, verify, s, disk, disk, true);
            } else {
                lemma_same_file(start, verify, s, disk, s.next(reply));
            }
        },
        LoadStep::RemovePiece => {
            lemma_piece_removed(start, verify, s, disk, new_disk);
        },
        LoadStep::RemoveChecksum => {
            lemma_without(disk, checksum_place(i));
            lemma_still_reduced(start, disk, checksum_place(i));
            law_places_are_distinct(i, i);
            assert(same_at(disk, new_disk, now));
            lemma_passed(start, verify, s, disk, new_disk, false);
        },
        _ => {},
    }
}

/// Removing a file brings nothing new.
proof fn lemma_still_reduced(start: Disk, disk: Disk, place: Place)
    requires
        reduced(start, disk),
    ensures
        reduced(start, disk.without(place)),
{
    lemma_without(disk, place);
    assert forall|other: Place| #[trigger] disk.without(place).has(other) implies start.has(other)
        && disk.without(place).content(other) == start.content(other) by {
        assert(disk.has(other));
        assert(same_at(disk, disk.without(place), other));
    }
}

/// A step that changes no file and leaves the file at hand in hand keeps the loading on course.
proof fn lemma_same_file(start: Disk, verify: bool, s: Loading, disk: Disk, t: Loading)
    requires
        on_course(start, verify, s, disk),
        s.files.len() > 0,
        !(s.step is ListRoot) && !(t.step is ListRoot),
        !(s.step is RemoveChecksum) && !(t.step is RemoveChecksum),
        t == s.at(t.step),
        step_fits(start, t, disk),
    ensures
        on_course(start, verify, t, disk),
{
    assert(t.files == s.files && t.segments == s.segments && t.dir == s.dir);
    lemma_nothing_done(start, verify, s, disk, t);
}

/// Removing a corrupt piece keeps the loading on course.
proof fn lemma_piece_removed(start: Disk, verify: bool, s: Loading, disk: Disk, new_disk: Disk)
    requires
        on_course(start, verify, s, disk),
        s.step is RemovePiece,
        new_disk == disk.without(piece_place(s.files[0].index)),
    ensures
        on_course(start, verify, s.at(LoadStep::RemoveChecksum), new_disk),
{
    let i = s.files[0].index;
    let now = at_hand(s);
    let t = s.at(LoadStep::RemoveChecksum);
    assert(t.files == s.files && t.segments == s.segments && t.dir == s.dir);
    assert(s.files[0].name == now.name);
    assert(among(s.files, now.name));
    assert(pending(start, s, now));
    lemma_without(disk, now);
    lemma_still_reduced(start, disk, now);
    assert forall|place: Place| #[trigger] pending(start, t, place) == pending(
        start,
        s,
        place,
    ) by {}
    assert(files_fit(start, t, new_disk)) by {
        assert forall|place: Place| #[trigger]
            pending(start, t, place) && place != now implies new_disk.has(place) by {
            assert(pending(start, s, place));
            assert(same_at(disk, new_disk, place));
        }
        assert forall|place: Place| #[trigger]
            piece_named(start, place) && !pending(start, t, place) implies new_disk.has(place)
            == !discarded(start, verify, place) by {
            assert(pending(start, t, place) == pending(start, s, place));
            assert(place != now);
            assert(same_at(disk, new_disk, place));
        }
        assert forall|j: u64| #[trigger] corrupt(start, verify, j) implies new_disk.has(
            checksum_place(j),
        ) == pending(start, t, piece_place(j)) by {
            law_places_are_distinct(i, j);
            assert(same_at(disk, new_disk, checksum_place(j)));
            assert(pending(start, t, piece_place(j)) == pending(start, s, piece_place(j)));
        }
        assert forall|place: Place| #[trigger]
            start.has(place) && named_piece(place.name) is None && !discarded(
                start,
                verify,
                place,
            ) implies new_disk.has(place) by {
            assert(same_at(disk, new_disk, place));
        }
    }
    assert forall|j: u64| #[trigger]
        t.found.contains(j) <==> exists|place: Place| counted(start, t, place, j) by {
        assert(s.found.contains(j) == t.found.contains(j));
        if s.found.contains(j) {
            let place = choose|place: Place| counted(start, s, place, j);
            assert(pending(start, t, place) == pending(start, s, place));
            assert(counted(start, t, place, j));
        }
        if exists|place: Place| counted(start, t, place, j) {
            let place = choose|place: Place| counted(start, t, place, j);
            assert(pending(start, t, place) == pending(start, s, place));
            assert(counted(start, s, place, j));
        }
    }
}

/// A loading that is on course stays so to its end.
proof fn lemma_load_on_course(
    start: Disk,
    verify: bool,
    s: Loading,
    disk: Disk,
    replies: Seq<Reply>,
)
    requires
        verify ==> orderly(start),
        on_course(start, verify, s, disk),
        completes(s, disk, replies),
    ensures
        on_course(start, verify, outcome(s, disk, replies).0, outcome(s, disk, replies).1),
        outcome(s, disk, replies).0.action() is None,
    decreases replies.len(),
{
    match s.action() {
        Some(action) => {
            lemma_step_on_course(start, verify, s, disk, replies[0]);
            lemma_load_on_course(
                start,
                verify,
                s.next(replies[0]),
                disk.after(action),
                replies.skip(1),
            );
        },
        None => {},
    }
}

/// A loading is on course before anything was done.
proof fn lemma_load_starts_on_course(start: Disk, verify: bool)
    requires
        verify ==> orderly(start),
    ensures
        on_course(start, verify, load_started(verify), start),
{
    let s = load_started(verify);
    assert forall|i: u64| #[trigger] corrupt(start, verify, i) implies start.has(checksum_place(i))
        == pending(start, s, piece_place(i)) by {
        law_piece_file_is_named_for_its_piece(i);
        assert(stands_for(start, piece_place(i), i));
    }
    assert forall|i: u64| #[trigger]
        s.found.contains(i) <==> exists|place: Place| counted(start, s, place, i) by {}
}

/// On a disk in working order, on which checksums can be compared throughout if they are, loading
/// takes in exactly the pieces that files stand for and whose checksums, if they are compared,
/// match. It removes the files that are named like pieces and not as long as one, and the corrupt
/// pieces with their checksums, and nothing else. Where checksums are not compared this holds of
/// every disk.
pub proof fn law_load_finds_usable_pieces(start: Disk, verify: bool, replies: Seq<Reply>)
    requires
        verify ==> orderly(start),
        completes(load_started(verify), start, replies),
    ensures
        outcome(load_started(verify), start, replies).0.step is Loaded,
        forall|i: u64| #[trigger]
            outcome(load_started(verify), start, replies).0.found.contains(i) <==> taken_in(
                start,
                verify,
                i,
            ),
        forall|place: Place| #[trigger]
            left_by_load(start, outcome(load_started(verify), start, replies).1, verify, place),
{
    let s = load_started(verify);
    lemma_load_starts_on_course(start, verify);
    lemma_load_on_course(start, verify, s, start, replies);
    let t = outcome(s, start, replies).0;
    let after = outcome(s, start, replies).1;
    assert(t.step is Loaded);
    assert forall|place: Place| !(#[trigger] pending(start, t, place)) by {}
    assert forall|i: u64| #[trigger] t.found.contains(i) <==> taken_in(start, verify, i) by {
        if t.found.contains(i) {
            let place = choose|place: Place| counted(start, t, place, i);
            assert(stands_for(start, place, i));
        }
        if taken_in(start, verify, i) {
            let place = choose|place: Place| stands_for(start, place, i);
            assert(!pending(start, t, place));
            assert(counted(start, t, place, i));
        }
    }
    assert forall|place: Place| #[trigger] left_by_load(start, after, verify, place) by {
        if piece_named(start, place) {
            assert(!pending(start, t, place));
        } else if discarded(start, verify, place) {
            let i = choose|i: u64| condemned(start, verify, i, place);
            law_piece_file_is_named_for_its_piece(i);
            assert(place == checksum_place(i));
            assert(!pending(start, t, piece_place(i)));
        } else if start.has(place) {
            assert(after.has(place));
        }
    }
}

/// Whether piece `i` and its checksum are on disk and match.
pub open spec fn proven(disk: Disk, i: u64) -> bool {
    disk.has(piece_place(i)) && disk.has(checksum_place(i)) && intact(disk, i)
}

/// What holds at every step of a loading that compares checksums.
spec fn on_guard(start: Disk, s: Loading, disk: Disk) -> bool {
    &&& s.verify
    &&& reduced(start, disk)
    &&& forall|i: u64| #[trigger] s.found.contains(i) ==> proven(start, i)
    &&& s.step is ReadPiece ==> start.has(checksum_place(s.files[0].index)) && s.step->ReadPiece_0
        == start.content(checksum_place(s.files[0].index))
}

proof fn lemma_on_guard(start: Disk, s: Loading, disk: Disk, replies: Seq<Reply>)
    requires
        on_guard(start, s, disk),
        completes(s, disk, replies),
    ensures
        on_guard(start, outcome(s, disk, replies).0, outcome(s, disk, replies).1),
    decreases replies.len(),
{
    match s.action() {
        Some(action) => {
            let t = s.next(replies[0]);
            let new_disk = disk.after(action);
            match action {
                Action::RemoveFile(place) => {
                    lemma_without(disk, place);
                    assert forall|other: Place| #[trigger] new_disk.has(other) implies start.has(
                        other,
                    ) && new_disk.content(other) == start.content(other) by {
                        assert(disk.has(other));
                        assert(same_at(disk, new_disk, other));
                    }
                },
                _ => {
                    assert(new_disk == disk);
                },
            }
            assert forall|i: u64| #[trigger] t.found.contains(i) implies proven(start, i) by {
                if !s.found.contains(i) {
                    let k = choose|k: int| 0 <= k < t.found.len() && t.found[k] == i;
                    if k < s.found.len() {
                        assert(s.found[k] == i);
                    }
                    assert(disk.has(piece_place(i)));
                }
            }
            lemma_on_guard(start, t, new_disk, replies.skip(1));
        },
        None => {},
    }
}

/// A loading that compares checksums takes in no piece but those that match their own, whatever
/// else is on the disk.
pub proof fn law_verified_load_takes_proven_pieces_only(start: Disk, replies: Seq<Reply>)
    requires
        completes(load_started(true), start, replies),
    ensures
        forall|i: u64| #[trigger]
            outcome(load_started(true), start, replies).0.found.contains(i) ==> proven(start, i),
{
    lemma_on_guard(start, load_started(true), start, replies);
}

/// How much of a loading is left: whether the directory of the cache is still to be listed, how
/// many directories are, how many files are to be looked at, and how much is to be done with the
/// first of them.
pub open spec fn left_to_do(s: Loading) -> (nat, nat, nat, nat) {
    let at_hand: nat = match s.step {
        LoadStep::AskSize => 5,
        LoadStep::ReadChecksum => 4,
        LoadStep::ReadPiece(_) => 3,
        LoadStep::RemovePiece => 2,
        LoadStep::RemoveChecksum => 1,
        LoadStep::Discard => 1,
        _ => 0,
    };
    (
        if s.step is ListRoot {
            1nat
        } else {
            0nat
        },
        s.segments.len(),
        s.files.len(),
        at_hand,
    )
}

/// Whether less is left in `a` than in `b`, in the order of the parts.
pub open spec fn less_left(a: (nat, nat, nat, nat), b: (nat, nat, nat, nat)) -> bool {
    ||| a.0 < b.0
    ||| a.0 == b.0 && a.1 < b.1
    ||| a.0 == b.0 && a.1 == b.1 && a.2 < b.2
    ||| a.0 == b.0 && a.1 == b.1 && a.2 == b.2 && a.3 < b.3
}

/// Whatever the disk replies, every step of a loading either ends it or leaves less to be done, so
/// that it always comes to an end.
pub proof fn law_load_makes_progress(s: Loading, reply: Reply)
    requires
        s.action() is Some,
        s.step is ListSegment ==> s.segments.len() > 0,
        !(s.step is ListRoot) && !(s.step is ListSegment) ==> s.files.len() > 0,
    ensures
        s.next(reply).action() is None || less_left(left_to_do(s.next(reply)), left_to_do(s)),
        s.next(reply).step is ListSegment ==> s.next(reply).segments.len() > 0,
        s.next(reply).action() is Some && !(s.next(reply).step is ListRoot) && !(s.next(
            reply,
        ).step is ListSegment) ==> s.next(reply).files.len() > 0,
{
}

} // verus!
