//! The checksum that is kept beside every cached piece.

use crate::primitives::{
    law_little_endian_round_trip, law_little_endian_value_injective, little_endian,
    little_endian_value, PieceIndex,
};
use vstd::prelude::*;

verus! {

/// The BLAKE3 digest of a run of bytes, as `blake3::hash` computes it.
pub uninterp spec fn blake3_digest(data: Seq<u8>) -> Seq<u8>;

/// Calls `blake3::hash`, which hashes its whole input in one go.
///
/// Trusted: the digest is 32 bytes long and a function of the input alone. Which digest an input
/// has, and that two inputs hardly ever share one, is left unsaid.
#[verifier::external_body]
fn blake3_hash(data: &[u8]) -> (r: Vec<u8>)
    ensures
        r@ == blake3_digest(data@),
        r@.len() == 32,
{
    blake3::hash(data).as_bytes().to_vec()
}

/// The parts of `list` joined, in order.
pub open spec fn joined(list: Seq<Seq<u8>>) -> Seq<u8>
    decreases list.len(),
{
    if list.len() == 0 {
        seq![]
    } else {
        joined(list.drop_last()) + list.last()
    }
}

/// The BLAKE3 digest of a list of byte strings, taken as if they were one.
pub fn blake3_hash_list(data: &[&[u8]]) -> (r: Vec<u8>)
    ensures
        r@ == blake3_digest(joined(data@.map_values(|part: &[u8]| part@))),
        r@.len() == 32,
{
    let ghost parts = data@.map_values(|part: &[u8]| part@);
    let mut all: Vec<u8> = Vec::new();
    let mut i: usize = 0;
    while i < data.len()
        invariant
            i <= data@.len(),
            parts == data@.map_values(|part: &[u8]| part@),
            all@ == joined(parts.take(i as int)),
        decreases data@.len() - i,
    {
        let ghost before = all@;
        let part: &[u8] = data[i];
        all.extend_from_slice(part);
        proof {
            assert(all@ =~= before + part@);
            assert(parts.take(i + 1).drop_last() =~= parts.take(i as int));
            assert(parts.take(i + 1).last() == part@);
        }
        i += 1;
    }
    proof {
        assert(parts.take(parts.len() as int) =~= parts);
    }
    blake3_hash(all.as_slice())
}

/// The checksum of piece `index` with content `content`: the digest of the index as eight
/// little-endian bytes followed by the content.
pub open spec fn checksum_of(index: u64, content: Seq<u8>) -> Seq<u8> {
    blake3_digest(little_endian(index as nat, 8) + content)
}

/// Computes the checksum that is kept beside piece `index` with content `content`.
pub fn piece_checksum(index: PieceIndex, content: &[u8]) -> (r: Vec<u8>)
    ensures
        r@ == checksum_of(index.value, content@),
        r@ == blake3_digest(little_endian(index.value as nat, 8) + content@),
        r@.len() == 32,
{
    let index_bytes = index.to_bytes();
    let parts: [&[u8]; 2] = [index_bytes.as_slice(), content];
    proof {
        let views = parts@.map_values(|part: &[u8]| part@);
        assert(views =~= seq![index_bytes@, content@]);
        reveal_with_fuel(joined, 3);
        assert(views.drop_last().drop_last() =~= Seq::<Seq<u8>>::empty());
        assert(joined(views) =~= index_bytes@ + content@);
    }
    blake3_hash_list(parts.as_slice())
}

/// Whether two runs of bytes are the same.
pub fn same_bytes(a: &[u8], b: &[u8]) -> (r: bool)
    ensures
        r == (a@ == b@),
{
    if a.len() != b.len() {
        return false;
    }
    let mut i: usize = 0;
    while i < a.len()
        invariant
            i <= a@.len(),
            a@.len() == b@.len(),
            forall|j: int| 0 <= j < i ==> a@[j] == b@[j],
        decreases a@.len() - i,
    {
        if a[i] != b[i] {
            return false;
        }
        i += 1;
    }
    assert(a@ =~= b@);
    true
}

/// Compares the content of piece `index` with the checksum that was kept of it. A match takes the
/// digest itself, all of it and nothing more.
pub fn checksum_matches(index: PieceIndex, content: &[u8], expected: &[u8]) -> (r: bool)
    ensures
        r == (checksum_of(index.value, content@) == expected@),
        r == (blake3_digest(little_endian(index.value as nat, 8) + content@) == expected@),
{
    let actual = piece_checksum(index, content);
    same_bytes(actual.as_slice(), expected)
}

/// What is joined goes on with what is joined to it, and nothing joined is nothing.
pub proof fn law_joining_appends(list: Seq<Seq<u8>>, part: Seq<u8>)
    ensures
        joined(seq![]) == Seq::<u8>::empty(),
        joined(list.push(part)) == joined(list) + part,
{
    assert(list.push(part).drop_last() =~= list);
}

/// The eight bytes of an index denote it.
proof fn lemma_index_bytes(index: u64)
    ensures
        little_endian(index as nat, 8).len() == 8,
        little_endian_value(little_endian(index as nat, 8)) == index,
{
    law_little_endian_round_trip(index as nat, 8);
    assert(vstd::arithmetic::power::pow(256, 8) == 0x1_0000_0000_0000_0000) by {
        reveal(vstd::arithmetic::power::pow);
        reveal_with_fuel(vstd::arithmetic::power::pow, 9);
    }
}

/// The checksum of a piece is the digest of exactly this: eight bytes that denote the index, and
/// every byte of the content behind them.
pub proof fn law_checksum_covers_index_and_content(index: u64, hashed: Seq<u8>)
    requires
        hashed.len() >= 8,
        little_endian_value(hashed.take(8)) == index,
    ensures
        checksum_of(index, hashed.skip(8)) == blake3_digest(hashed),
{
    lemma_index_bytes(index);
    law_little_endian_value_injective(hashed.take(8), little_endian(index as nat, 8));
    assert(hashed =~= hashed.take(8) + hashed.skip(8));
}

/// Two pieces whose checksums agree are the same piece with the same content, unless the digest
/// agrees on two different runs of bytes: any other index, and any change of any byte, is told.
pub proof fn law_checksum_tells_pieces_apart(a: u64, content: Seq<u8>, b: u64, other: Seq<u8>)
    requires
        forall|x: Seq<u8>, y: Seq<u8>|
            x.len() == 8 + content.len() && x.skip(8) == content && little_endian_value(x.take(8))
                == a && y.len() == 8 + other.len() && y.skip(8) == other && little_endian_value(
                y.take(8),
            ) == b && #[trigger] blake3_digest(x) == #[trigger] blake3_digest(y) ==> x == y,
        checksum_of(a, content) == checksum_of(b, other),
    ensures
        a == b,
        content == other,
{
    lemma_index_bytes(a);
    lemma_index_bytes(b);
    let x = little_endian(a as nat, 8) + content;
    let y = little_endian(b as nat, 8) + other;
    assert(x.take(8) =~= little_endian(a as nat, 8));
    assert(y.take(8) =~= little_endian(b as nat, 8));
    assert(x.skip(8) =~= content);
    assert(y.skip(8) =~= other);
    law_checksum_covers_index_and_content(a, x);
    law_checksum_covers_index_and_content(b, y);
}

} // verus!
