//! Where the cache keeps a piece and its checksum.

use crate::disk::{FilePath, Place};
use crate::primitives::{segment_of, PieceIndex};
use crate::text;
use crate::text::{decimal_text, is_digit, occurs, parsed_u64};
use vstd::prelude::*;

verus! {

/// The directory that holds the pieces of the segment of piece `index`.
pub open spec fn segment_dir_of(index: u64) -> Seq<char> {
    decimal_text(segment_of(index) as nat)
}

/// The file that holds piece `index`.
pub open spec fn piece_place(index: u64) -> Place {
    Place { dir: segment_dir_of(index), name: decimal_text(index as nat) }
}

/// The file that holds the checksum of piece `index`.
pub open spec fn checksum_place(index: u64) -> Place {
    Place { dir: segment_dir_of(index), name: decimal_text(index as nat) + ".checksum"@ }
}

/// The places of one piece: its segment's directory, its file and its checksum's file.
pub struct PiecePath {
    pub segment_dir: String,
    pub piece: FilePath,
    pub checksum: FilePath,
}

/// The places of piece `index`: the directory is named by the segment, the file by the piece, the
/// checksum's file by the piece and an ending.
pub fn piece_path(index: PieceIndex) -> (r: PiecePath)
    ensures
        r.segment_dir@ == segment_dir_of(index.value),
        r.piece@ == piece_place(index.value),
        r.checksum@ == checksum_place(index.value),
        r.segment_dir@ == decimal_text((index.value / 256) as nat),
        r.piece.dir@ == r.segment_dir@,
        r.piece.name@ == decimal_text(index.value as nat),
        r.checksum.dir@ == r.segment_dir@,
        r.checksum.name@ == r.piece.name@ + ".checksum"@,
{
    let segment_dir = text::decimal(index.segment_index().value);
    let piece_key = text::decimal(index.value);
    let mut checksum_key = piece_key.clone();
    checksum_key.append(".checksum");
    PiecePath {
        segment_dir: segment_dir.clone(),
        piece: FilePath { dir: segment_dir.clone(), name: piece_key },
        checksum: FilePath { dir: segment_dir, name: checksum_key },
    }
}

/// The address of piece `index` on the server at `base`.
pub open spec fn piece_url_text(base: Seq<char>, index: u64) -> Seq<char> {
    base + segment_dir_of(index) + "/"@ + decimal_text(index as nat)
}

/// Where to get piece `index` from the server at `base`: the address of the server followed by
/// the names of the segment and the piece.
pub fn piece_url(base: &str, index: PieceIndex) -> (r: String)
    ensures
        r@ == piece_url_text(base@, index.value),
        r@ == base@ + decimal_text((index.value / 256) as nat) + "/"@ + decimal_text(
            index.value as nat,
        ),
{
    let mut r = base.to_owned();
    let segment_key = text::decimal(index.segment_index().value);
    r.append(segment_key.as_str());
    r.append("/");
    let piece_key = text::decimal(index.value);
    r.append(piece_key.as_str());
    r
}

/// The piece whose file is named `name`; none if the name is that of a checksum's file or no
/// number.
pub open spec fn named_piece(name: Seq<char>) -> Option<u64> {
    if occurs(name, ".checksum"@) {
        None
    } else {
        parsed_u64(name)
    }
}

/// Tells which piece a file holds by the name of the file.
pub fn piece_of_file_name(name: &str) -> (r: Option<PieceIndex>)
    ensures
        r is Some <==> named_piece(name@) is Some,
        r is Some ==> r->0.value == named_piece(name@)->0,
        occurs(name@, ".checksum"@) ==> r is None,
        !occurs(name@, ".checksum"@) ==> (r is Some <==> parsed_u64(name@) is Some),
        r is Some ==> parsed_u64(name@) == Some(r->0.value),
{
    if text::contains(name, ".checksum") {
        return None;
    }
    match text::parse_u64(name) {
        Some(value) => Some(PieceIndex::from(value)),
        None => None,
    }
}

/// The name of a piece's file tells that piece.
pub proof fn law_piece_file_is_named_for_its_piece(index: u64)
    ensures
        named_piece(piece_place(index).name) == Some(index),
{
    let name = decimal_text(index as nat);
    text::lemma_decimal_text(index as nat);
    text::law_decimal_round_trip(index);
    reveal_strlit(".checksum");
    if occurs(name, ".checksum"@) {
        let k = choose|k: int|
            0 <= k <= name.len() - ".checksum"@.len() && #[trigger] name.subrange(
                k,
                k + ".checksum"@.len(),
            ) == ".checksum"@;
        assert(name.subrange(k, k + ".checksum"@.len())[0] == name[k]);
        assert(is_digit(name[k]));
        assert(false);
    }
}

/// The name of a checksum's file tells no piece, so that it is never taken for one.
pub proof fn law_checksum_file_names_no_piece(index: u64)
    ensures
        named_piece(checksum_place(index).name) is None,
{
    let name = decimal_text(index as nat) + ".checksum"@;
    let k = decimal_text(index as nat).len() as int;
    assert(name.subrange(k, k + ".checksum"@.len()) =~= ".checksum"@);
}

/// No two pieces share a file, no two checksums do, and no piece shares one with a checksum.
pub proof fn law_places_are_distinct(a: u64, b: u64)
    ensures
        piece_place(a) == piece_place(b) ==> a == b,
        checksum_place(a) == checksum_place(b) ==> a == b,
        piece_place(a) != checksum_place(b),
{
    if piece_place(a) == piece_place(b) {
        text::law_decimal_injective(a as nat, b as nat);
    }
    if checksum_place(a) == checksum_place(b) {
        let left = decimal_text(a as nat) + ".checksum"@;
        let right = decimal_text(b as nat) + ".checksum"@;
        let n = left.len() - ".checksum"@.len();
        assert(left.take(n) =~= decimal_text(a as nat));
        assert(right.take(n) =~= decimal_text(b as nat));
        text::law_decimal_injective(a as nat, b as nat);
    }
    law_piece_file_is_named_for_its_piece(a);
    law_checksum_file_names_no_piece(b);
}

/// No two pieces share an address on a server.
pub proof fn law_urls_are_distinct(base: Seq<char>, a: u64, b: u64)
    ensures
        piece_url_text(base, a) == piece_url_text(base, b) ==> a == b,
{
    let (url_a, url_b) = (piece_url_text(base, a), piece_url_text(base, b));
    if url_a == url_b {
        reveal_strlit("/");
        text::lemma_decimal_text(segment_of(a) as nat);
        text::lemma_decimal_text(segment_of(b) as nat);
        let n = base.len() as int;
        let k = segment_dir_of(a).len() as int;
        let l = segment_dir_of(b).len() as int;
        assert(url_a[n + k] == '/');
        assert(url_b[n + l] == '/');
        if k < l {
            assert(url_b[n + k] == segment_dir_of(b)[k]);
            assert(is_digit(segment_dir_of(b)[k]));
        }
        if l < k {
            assert(url_a[n + l] == segment_dir_of(a)[l]);
            assert(is_digit(segment_dir_of(a)[l]));
        }
        assert(url_a.skip(n + k + 1) =~= decimal_text(a as nat));
        assert(url_b.skip(n + l + 1) =~= decimal_text(b as nat));
        text::law_decimal_injective(a as nat, b as nat);
    }
}

/// A piece's file tells its number by its name and its segment by its directory; the checksum's
/// file is beside it and tells no piece.
pub proof fn law_places_tell_piece_and_segment(index: u64)
    ensures
        parsed_u64(piece_place(index).name) == Some(index),
        parsed_u64(piece_place(index).dir) == Some((index / 256) as u64),
        parsed_u64(segment_dir_of(index)) == Some((index / 256) as u64),
        index > 0 ==> piece_place(index).name[0] != '0',
        index >= 256 ==> piece_place(index).dir[0] != '0',
        is_digit(piece_place(index).name[0]),
        is_digit(piece_place(index).dir[0]),
        piece_place(index).dir == segment_dir_of(index),
        checksum_place(index).dir == piece_place(index).dir,
        checksum_place(index).name == piece_place(index).name + ".checksum"@,
{
    text::law_decimal_round_trip(index);
    text::law_decimal_round_trip((index / 256) as u64);
    text::law_decimal_is_canonical(index as nat);
    text::law_decimal_is_canonical((index / 256) as nat);
}

/// The pieces of one segment, and no others, share a directory.
pub proof fn law_segments_share_a_directory(a: u64, b: u64)
    ensures
        piece_place(a).dir == piece_place(b).dir <==> a / 256 == b / 256,
{
    law_places_tell_piece_and_segment(a);
    law_places_tell_piece_and_segment(b);
}

/// The address of a piece is that of the server, the directory that the piece is kept in, a slash
/// and the name of its file.
pub proof fn law_url_names_the_file(base: Seq<char>, index: u64)
    ensures
        piece_url_text(base, index) == base + piece_place(index).dir + "/"@ + piece_place(
            index,
        ).name,
{
}

/// A file tells a piece by its number, unless it is a checksum's.
pub proof fn law_names_tell_pieces_by_number(name: Seq<char>)
    ensures
        occurs(name, ".checksum"@) ==> named_piece(name) is None,
        !occurs(name, ".checksum"@) ==> named_piece(name) == parsed_u64(name),
{
}

} // verus!
