//! Pieces and segments: how the archived history is numbered.

use vstd::prelude::*;

verus! {

/// How many pieces make up one segment of the archived history.
pub const PIECES_PER_SEGMENT: u64 = 256;

/// How many bytes one piece holds.
pub const PIECE_SIZE: usize = 1048672;

/// The number of a piece in the archived history.
#[derive(Clone, Copy, Debug, PartialEq, Eq, Structural)]
pub struct PieceIndex {
    pub value: u64,
}

/// The number of a segment of the archived history.
#[derive(Clone, Copy, Debug, PartialEq, Eq, Structural)]
pub struct SegmentIndex {
    pub value: u64,
}

/// The segment that piece `index` belongs to.
pub open spec fn segment_of(index: u64) -> u64 {
    index / PIECES_PER_SEGMENT
}

/// The number of the first piece of segment `segment`.
pub open spec fn first_piece_of(segment: u64) -> int {
    segment * PIECES_PER_SEGMENT
}

/// The number of the last piece of segment `segment`.
pub open spec fn last_piece_of(segment: u64) -> int {
    segment * PIECES_PER_SEGMENT + PIECES_PER_SEGMENT - 1
}

/// The bytes of `n` from the least significant one on, as many as `len`.
pub open spec fn little_endian(n: nat, len: nat) -> Seq<u8>
    decreases len,
{
    if len == 0 {
        seq![]
    } else {
        seq![(n % 256) as u8] + little_endian(n / 256, (len - 1) as nat)
    }
}

/// The number whose bytes, from the least significant one on, are `s`.
pub open spec fn little_endian_value(s: Seq<u8>) -> nat
    decreases s.len(),
{
    if s.len() == 0 {
        0
    } else {
        s[0] as nat + 256 * little_endian_value(s.skip(1))
    }
}

impl PieceIndex {
    /// The piece that is numbered `value`.
    pub fn from(value: u64) -> (r: PieceIndex)
        ensures
            r.value == value,
    {
        PieceIndex { value }
    }

    /// The index as eight bytes, the least significant first.
    pub fn to_bytes(self) -> (r: Vec<u8>)
        ensures
            r@ == little_endian(self.value as nat, 8),
            r@.len() == 8,
            little_endian_value(r@) == self.value,
    {
        let mut r: Vec<u8> = Vec::new();
        let mut rest: u64 = self.value;
        let mut i: usize = 0;
        while i < 8
            invariant
                i <= 8,
                r@ + little_endian(rest as nat, (8 - i) as nat) == little_endian(
                    self.value as nat,
                    8,
                ),
            decreases 8 - i,
        {
            let ghost before = r@;
            let byte: u8 = (rest % 256) as u8;
            r.push(byte);
            proof {
                let n = rest as nat;
                assert(little_endian(n, (8 - i) as nat) =~= seq![byte] + little_endian(
                    n / 256,
                    (7 - i) as nat,
                ));
                assert(before + (seq![byte] + little_endian(n / 256, (7 - i) as nat)) =~= r@
                    + little_endian(n / 256, (7 - i) as nat));
            }
            rest = rest / 256;
            i += 1;
        }
        proof {
            assert(r@ + little_endian(rest as nat, 0) =~= r@);
            law_little_endian_round_trip(self.value as nat, 8);
            assert(vstd::arithmetic::power::pow(256, 8) == 0x1_0000_0000_0000_0000) by {
                reveal(vstd::arithmetic::power::pow);
                reveal_with_fuel(vstd::arithmetic::power::pow, 9);
            }
        }
        r
    }

    /// The segment that the piece belongs to.
    pub fn segment_index(self) -> (r: SegmentIndex)
        ensures
            r.value == segment_of(self.value),
            r.value * 256 <= self.value < r.value * 256 + 256,
    {
        SegmentIndex { value: self.value / PIECES_PER_SEGMENT }
    }
}

impl SegmentIndex {
    /// The segment that is numbered `value`.
    pub fn from(value: u64) -> (r: SegmentIndex)
        ensures
            r.value == value,
    {
        SegmentIndex { value }
    }

    /// The last segment of a history that holds `history_size` segments.
    pub fn last_of_history(history_size: u64) -> (r: SegmentIndex)
        requires
            history_size > 0,
        ensures
            r.value == history_size - 1,
    {
        SegmentIndex { value: history_size - 1 }
    }

    /// The first piece of the segment.
    pub fn first_piece_index(self) -> (r: PieceIndex)
        requires
            first_piece_of(self.value) <= u64::MAX,
        ensures
            r.value == first_piece_of(self.value),
            r.value == self.value * 256,
    {
        PieceIndex { value: self.value * PIECES_PER_SEGMENT }
    }

    /// The last piece of the segment.
    pub fn last_piece_index(self) -> (r: PieceIndex)
        requires
            last_piece_of(self.value) <= u64::MAX,
        ensures
            r.value == last_piece_of(self.value),
            r.value == self.value * 256 + 255,
    {
        PieceIndex { value: self.value * PIECES_PER_SEGMENT + (PIECES_PER_SEGMENT - 1) }
    }

    /// The pieces of the segment, in order.
    pub fn segment_piece_indexes(self) -> (r: Vec<PieceIndex>)
        requires
            last_piece_of(self.value) <= u64::MAX,
        ensures
            r@.len() == PIECES_PER_SEGMENT,
            forall|i: int|
                0 <= i < PIECES_PER_SEGMENT ==> (#[trigger] r@[i]).value == first_piece_of(
                    self.value,
                ) + i,
            r@.len() == 256,
            forall|i: int| 0 <= i < 256 ==> (#[trigger] r@[i]).value == self.value * 256 + i,
    {
        let first = self.first_piece_index();
        let mut r: Vec<PieceIndex> = Vec::new();
        let mut i: u64 = 0;
        while i < PIECES_PER_SEGMENT
            invariant
                i <= PIECES_PER_SEGMENT,
                first.value == first_piece_of(self.value),
                last_piece_of(self.value) <= u64::MAX,
                r@.len() == i,
                forall|j: int|
                    0 <= j < i ==> (#[trigger] r@[j]).value == first_piece_of(self.value) + j,
            decreases PIECES_PER_SEGMENT - i,
        {
            r.push(PieceIndex { value: first.value + i });
            i += 1;
        }
        r
    }
}

/// A piece of the archived history: a fixed number of bytes.
pub struct Piece {
    bytes: Vec<u8>,
}

impl View for Piece {
    type V = Seq<u8>;

    closed spec fn view(&self) -> Seq<u8> {
        self.bytes@
    }
}

impl Piece {
    #[verifier::type_invariant]
    spec fn well_formed(self) -> bool {
        self.bytes@.len() == PIECE_SIZE
    }

    /// Takes `bytes` as a piece if there are exactly as many as a piece holds.
    pub fn try_from(bytes: Vec<u8>) -> (r: Option<Piece>)
        ensures
            r is Some <==> bytes@.len() == PIECE_SIZE,
            r is Some ==> r->0@ == bytes@,
    {
        if bytes.len() == PIECE_SIZE {
            Some(Piece { bytes })
        } else {
            None
        }
    }

    /// The bytes of the piece.
    pub fn as_bytes(&self) -> (r: &Vec<u8>)
        ensures
            r@ == self@,
            r@.len() == PIECE_SIZE,
    {
        proof {
            use_type_invariant(self);
        }
        &self.bytes
    }

    /// Gives the bytes of the piece away.
    pub fn into_bytes(self) -> (r: Vec<u8>)
        ensures
            r@ == self@,
            r@.len() == PIECE_SIZE,
    {
        proof {
            use_type_invariant(&self);
        }
        self.bytes
    }
}

impl Clone for Piece {
    fn clone(&self) -> (r: Piece)
        ensures
            r@ == self@,
    {
        proof {
            use_type_invariant(self);
        }
        let mut bytes: Vec<u8> = Vec::new();
        bytes.extend_from_slice(self.bytes.as_slice());
        assert(bytes@ =~= self.bytes@);
        Piece { bytes }
    }
}

/// Reading the bytes of a number gives the number back.
pub proof fn law_little_endian_round_trip(n: nat, len: nat)
    ensures
        little_endian(n, len).len() == len,
        n < vstd::arithmetic::power::pow(256, len) ==> little_endian_value(little_endian(n, len))
            == n,
    decreases len,
{
    reveal(vstd::arithmetic::power::pow);
    if len > 0 {
        let rest = little_endian(n / 256, (len - 1) as nat);
        law_little_endian_round_trip(n / 256, (len - 1) as nat);
        assert(little_endian(n, len).skip(1) =~= rest);
        let p = vstd::arithmetic::power::pow(256, (len - 1) as nat);
        assert(vstd::arithmetic::power::pow(256, len) == 256 * p);
        if n < 256 * p {
            assert(n / 256 < p) by (nonlinear_arith)
                requires
                    n < 256 * p,
            ;
        }
    }
}

/// A piece lies in segment `segment` exactly if its number is from that of the segment's first
/// piece to that of its last one: the segments part the pieces.
pub proof fn law_segments_part_the_pieces(index: u64, segment: u64)
    ensures
        segment_of(index) == segment <==> first_piece_of(segment) <= index <= last_piece_of(
            segment,
        ),
{
}

/// Two runs of as many bytes that denote the same number are the same.
pub proof fn law_little_endian_value_injective(a: Seq<u8>, b: Seq<u8>)
    requires
        a.len() == b.len(),
        little_endian_value(a) == little_endian_value(b),
    ensures
        a == b,
    decreases a.len(),
{
    if a.len() > 0 {
        law_little_endian_value_injective(a.skip(1), b.skip(1));
        assert(a =~= seq![a[0]] + a.skip(1));
        assert(b =~= seq![b[0]] + b.skip(1));
    }
    assert(a =~= b);
}

/// The segments follow each other without a gap, from piece 0 on, 256 pieces each.
pub proof fn law_segments_follow_each_other(segment: u64)
    ensures
        first_piece_of(0) == 0,
        last_piece_of(segment) == first_piece_of(segment) + 255,
        segment < u64::MAX ==> first_piece_of((segment + 1) as u64) == last_piece_of(segment) + 1,
{
}

/// Each byte counts 256 times as much as the one before it, and no bytes denote zero.
pub proof fn law_little_endian_is_positional(byte: u8, rest: Seq<u8>)
    ensures
        little_endian_value(seq![]) == 0,
        little_endian_value(seq![byte] + rest) == byte + 256 * little_endian_value(rest),
{
    assert((seq![byte] + rest).skip(1) =~= rest);
}

} // verus!
