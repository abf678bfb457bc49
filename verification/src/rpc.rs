//! What is asked of the node, and how its replies are read.

use crate::primitives::{Piece, PieceIndex, SegmentIndex, PIECE_SIZE};
use crate::text;
use crate::text::decimal_text;
use vstd::prelude::*;

verus! {

/// What is said when the connection to the node cannot be set up.
pub const CONNECTION_ERROR: &'static str = "init fail";

/// How the connection to the node shows itself.
pub const CONNECTION_NAME: &'static str = "Mock";

/// How many milliseconds to wait before the first attempt to connect again.
pub const RETRY_BASE_MILLISECONDS: u64 = 100;

/// A call of the node.
pub enum NodeCall {
    /// What a farmer needs to know.
    FarmerAppInfo,
    /// Submit a solution.
    SubmitSolutionResponse,
    /// Submit the signature of a reward.
    SubmitRewardSignature,
    /// The headers of these segments.
    SegmentHeaders(Vec<SegmentIndex>),
    /// A piece.
    Piece(PieceIndex),
    /// Say that the header of this segment has arrived.
    AcknowledgeArchivedSegmentHeader(SegmentIndex),
    /// As many of the last segment headers as this.
    LastSegmentHeaders(u64),
}

/// The name of the method that `call` calls.
pub open spec fn method_of(call: NodeCall) -> Seq<char> {
    match call {
        NodeCall::FarmerAppInfo => "subspace_getFarmerAppInfo"@,
        NodeCall::SubmitSolutionResponse => "subspace_submitSolutionResponse"@,
        NodeCall::SubmitRewardSignature => "subspace_submitRewardSignature"@,
        NodeCall::SegmentHeaders(_) => "subspace_segmentHeaders"@,
        NodeCall::Piece(_) => "subspace_piece"@,
        NodeCall::AcknowledgeArchivedSegmentHeader(_) =>
            "subspace_acknowledgeArchivedSegmentHeader"@,
        NodeCall::LastSegmentHeaders(_) => "subspace_lastSegmentHeaders"@,
    }
}

impl NodeCall {
    /// The name of the method to call.
    pub fn method(&self) -> (r: &'static str)
        ensures
            r@ == method_of(*self),
            self is FarmerAppInfo ==> r@ == "subspace_getFarmerAppInfo"@,
            self is SubmitSolutionResponse ==> r@ == "subspace_submitSolutionResponse"@,
            self is SubmitRewardSignature ==> r@ == "subspace_submitRewardSignature"@,
            self is SegmentHeaders ==> r@ == "subspace_segmentHeaders"@,
            self is Piece ==> r@ == "subspace_piece"@,
            self is AcknowledgeArchivedSegmentHeader ==> r@
                == "subspace_acknowledgeArchivedSegmentHeader"@,
            self is LastSegmentHeaders ==> r@ == "subspace_lastSegmentHeaders"@,
    {
        match self {
            NodeCall::FarmerAppInfo => "subspace_getFarmerAppInfo",
            NodeCall::SubmitSolutionResponse => "subspace_submitSolutionResponse",
            NodeCall::SubmitRewardSignature => "subspace_submitRewardSignature",
            NodeCall::SegmentHeaders(_) => "subspace_segmentHeaders",
            NodeCall::Piece(_) => "subspace_piece",
            NodeCall::AcknowledgeArchivedSegmentHeader(_) =>
                "subspace_acknowledgeArchivedSegmentHeader",
            NodeCall::LastSegmentHeaders(_) => "subspace_lastSegmentHeaders",
        }
    }
}

/// What a call hands to the node.
pub enum CallParams {
    /// Nothing.
    Nothing,
    /// One number.
    Number(u64),
    /// One list of numbers.
    Numbers(Vec<u64>),
    /// What is submitted, as it is.
    Submission,
}

/// What a call hands to the node, over the contents of its parts.
pub enum Parameters {
    Nothing,
    Number(u64),
    Numbers(Seq<u64>),
    Submission,
}

impl View for CallParams {
    type V = Parameters;

    open spec fn view(&self) -> Parameters {
        match *self {
            CallParams::Nothing => Parameters::Nothing,
            CallParams::Number(number) => Parameters::Number(number),
            CallParams::Numbers(numbers) => Parameters::Numbers(numbers@),
            CallParams::Submission => Parameters::Submission,
        }
    }
}

/// What `call` hands to the node: the numbers of all segments that are asked for, in order, or the
/// number of the piece or segment, or the limit as it is.
pub open spec fn params_of(call: NodeCall) -> Parameters {
    match call {
        NodeCall::FarmerAppInfo => Parameters::Nothing,
        NodeCall::SubmitSolutionResponse => Parameters::Submission,
        NodeCall::SubmitRewardSignature => Parameters::Submission,
        NodeCall::SegmentHeaders(indexes) => Parameters::Numbers(
            indexes@.map_values(|i: SegmentIndex| i.value),
        ),
        NodeCall::Piece(index) => Parameters::Number(index.value),
        NodeCall::AcknowledgeArchivedSegmentHeader(index) => Parameters::Number(index.value),
        NodeCall::LastSegmentHeaders(limit) => Parameters::Number(limit),
    }
}

/// The numbers of segments, in order.
fn segment_numbers(indexes: &Vec<SegmentIndex>) -> (r: Vec<u64>)
    ensures
        r@ == indexes@.map_values(|i: SegmentIndex| i.value),
{
    let mut r: Vec<u64> = Vec::new();
    let mut i: usize = 0;
    while i < indexes.len()
        invariant
            i <= indexes.len(),
            r@.len() == i,
            forall|j: int| 0 <= j < i ==> #[trigger] r@[j] == indexes@[j].value,
        decreases indexes.len() - i,
    {
        r.push(indexes[i].value);
        i += 1;
    }
    assert(r@ =~= indexes@.map_values(|i: SegmentIndex| i.value));
    r
}

impl NodeCall {
    /// What to hand to the node.
    pub fn params(&self) -> (r: CallParams)
        ensures
            r@ == params_of(*self),
            self is FarmerAppInfo ==> r is Nothing,
            self is SubmitSolutionResponse || self is SubmitRewardSignature ==> r is Submission,
            self is SegmentHeaders ==> r is Numbers && r->Numbers_0@.len()
                == self->SegmentHeaders_0@.len() && forall|k: int|
                0 <= k < self->SegmentHeaders_0@.len() ==> #[trigger] r->Numbers_0@[k]
                    == self->SegmentHeaders_0@[k].value,
            self is Piece ==> r == CallParams::Number(self->Piece_0.value),
            self is AcknowledgeArchivedSegmentHeader ==> r == CallParams::Number(
                self->AcknowledgeArchivedSegmentHeader_0.value,
            ),
            self is LastSegmentHeaders ==> r == CallParams::Number(self->LastSegmentHeaders_0),
    {
        match self {
            NodeCall::FarmerAppInfo => CallParams::Nothing,
            NodeCall::SubmitSolutionResponse => CallParams::Submission,
            NodeCall::SubmitRewardSignature => CallParams::Submission,
            NodeCall::SegmentHeaders(indexes) => CallParams::Numbers(segment_numbers(indexes)),
            NodeCall::Piece(index) => CallParams::Number(index.value),
            NodeCall::AcknowledgeArchivedSegmentHeader(index) => CallParams::Number(index.value),
            NodeCall::LastSegmentHeaders(limit) => CallParams::Number(*limit),
        }
    }
}

/// Something that the node announces.
#[derive(Clone, Copy, Debug, PartialEq, Eq, Structural)]
pub enum NodeSubscription {
    /// New slots.
    SlotInfo,
    /// Rewards to be signed.
    RewardSigning,
    /// Headers of newly archived segments.
    ArchivedSegmentHeader,
}

impl NodeSubscription {
    /// The name of the method that starts the announcements.
    pub fn subscribe_method(self) -> (r: &'static str)
        ensures
            self is SlotInfo ==> r@ == "subspace_subscribeSlotInfo"@,
            self is RewardSigning ==> r@ == "subspace_subscribeRewardSigning"@,
            self is ArchivedSegmentHeader ==> r@ == "subspace_subscribeArchivedSegmentHeader"@,
    {
        match self {
            NodeSubscription::SlotInfo => "subspace_subscribeSlotInfo",
            NodeSubscription::RewardSigning => "subspace_subscribeRewardSigning",
            NodeSubscription::ArchivedSegmentHeader => "subspace_subscribeArchivedSegmentHeader",
        }
    }

    /// The name of the method that ends the announcements.
    pub fn unsubscribe_method(self) -> (r: &'static str)
        ensures
            self is SlotInfo ==> r@ == "subspace_unsubscribeSlotInfo"@,
            self is RewardSigning ==> r@ == "subspace_unsubscribeRewardSigning"@,
            self is ArchivedSegmentHeader ==> r@ == "subspace_unsubscribeArchivedSegmentHeader"@,
    {
        match self {
            NodeSubscription::SlotInfo => "subspace_unsubscribeSlotInfo",
            NodeSubscription::RewardSigning => "subspace_unsubscribeRewardSigning",
            NodeSubscription::ArchivedSegmentHeader => "subspace_unsubscribeArchivedSegmentHeader",
        }
    }
}

/// What to make of an announcement: what was announced, or nothing if the announcement did not
/// arrive whole or could not be read. The announcements that follow are not affected.
pub fn announced<T, R, A>(announcement: Result<Result<T, R>, A>) -> (r: Option<T>)
    ensures
        r is Some <==> announcement is Ok && announcement->Ok_0 is Ok,
        r is Some ==> r->0 == announcement->Ok_0->Ok_0,
{
    match announcement {
        Ok(Ok(value)) => Some(value),
        _ => None,
    }
}

/// An error of `serde_json`.
#[verifier::external_type_specification]
#[verifier::external_body]
pub struct ExJsonError(serde_json::Error);

/// What `serde_json::from_str` reads as an optional run of bytes: the bytes, that there are none,
/// or, if the text cannot be read so, nothing.
pub uninterp spec fn json_optional_bytes(text: Seq<char>) -> Option<Option<Seq<u8>>>;

/// What was read, over the bytes.
pub open spec fn bytes_read(r: Result<Option<Vec<u8>>, serde_json::Error>) -> Option<
    Option<Seq<u8>>,
> {
    match r {
        Ok(Some(bytes)) => Some(Some(bytes@)),
        Ok(None) => Some(None),
        Err(_) => None,
    }
}

/// `bytes` as decimal numbers with commas in between.
pub open spec fn json_items(bytes: Seq<u8>) -> Seq<char>
    decreases bytes.len(),
{
    if bytes.len() == 0 {
        seq![]
    } else if bytes.len() == 1 {
        decimal_text(bytes[0] as nat)
    } else {
        json_items(bytes.drop_last()) + seq![','] + decimal_text(bytes.last() as nat)
    }
}

/// `bytes` as a JSON array of numbers, without blanks.
pub open spec fn json_array(bytes: Seq<u8>) -> Seq<char> {
    seq!['['] + json_items(bytes) + seq![']']
}

/// Calls `serde_json::from_str` for an optional vector of bytes.
///
/// Trusted: the result is a function of the text alone; the text `null` is read as no bytes, and an
/// array of numbers without blanks as the bytes that it lists. What else is read, and as what, is
/// left unsaid.
#[verifier::external_body]
fn read_optional_bytes(text: &str) -> (r: Result<Option<Vec<u8>>, serde_json::Error>)
    ensures
        bytes_read(r) == json_optional_bytes(text@),
        text@ == "null"@ ==> bytes_read(r) == Some(None::<Seq<u8>>),
        forall|bytes: Seq<u8>| text@ == #[trigger] json_array(bytes) ==> bytes_read(r) == Some(
            Some(bytes),
        ),
{
    serde_json::from_str::<Option<Vec<u8>>>(text)
}

/// Why there is no telling a piece by the node's reply.
pub enum PieceReplyError {
    /// The reply could not be read.
    Json(serde_json::Error),
    /// The reply is no piece; this piece was asked for.
    NotAPiece(PieceIndex),
}

impl PieceReplyError {
    /// What to say of the error; nothing where `serde_json` says it.
    pub fn message(&self) -> (r: Option<String>)
        ensures
            r is None <==> self is Json,
            self is NotAPiece ==> r->0@ == "Cannot convert piece. PieceIndex="@ + decimal_text(
                self->NotAPiece_0.value as nat,
            ),
    {
        match self {
            PieceReplyError::Json(_) => None,
            PieceReplyError::NotAPiece(piece_index) => {
                let mut r = "Cannot convert piece. PieceIndex=".to_owned();
                let index = text::decimal(piece_index.value);
                r.append(index.as_str());
                Some(r)
            },
        }
    }
}

/// Makes a piece of the bytes that the node sent for piece `piece_index`, if it sent any.
pub fn piece_of_bytes(piece_index: PieceIndex, bytes: Option<Vec<u8>>) -> (r: Result<
    Option<Piece>,
    PieceReplyError,
>)
    ensures
        r is Ok <==> bytes is None || bytes->0@.len() == PIECE_SIZE,
        r is Ok ==> (r->Ok_0 is Some <==> bytes is Some),
        r is Ok && r->Ok_0 is Some ==> r->Ok_0->0@ == bytes->0@,
        r is Err ==> r->Err_0 == PieceReplyError::NotAPiece(piece_index),
{
    match bytes {
        Some(bytes) => match Piece::try_from(bytes) {
            Some(piece) => Ok(Some(piece)),
            None => Err(PieceReplyError::NotAPiece(piece_index)),
        },
        None => Ok(None),
    }
}

/// What the node's reply to a request for a piece says, over the bytes of the piece: the piece,
/// that there is none, or, if the reply cannot be read or is not as long as a piece, nothing.
pub open spec fn piece_said(reply: Seq<char>) -> Option<Option<Seq<u8>>> {
    match json_optional_bytes(reply) {
        Some(Some(bytes)) => if bytes.len() == PIECE_SIZE {
            Some(Some(bytes))
        } else {
            None
        },
        other => other,
    }
}

/// Reads the node's reply to a request for piece `piece_index`.
pub fn read_piece_reply(piece_index: PieceIndex, reply: &str) -> (r: Result<
    Option<Piece>,
    PieceReplyError,
>)
    ensures
        r is Ok <==> piece_said(reply@) is Some,
        r is Ok ==> (r->Ok_0 is Some <==> piece_said(reply@)->0 is Some),
        r is Ok && r->Ok_0 is Some ==> r->Ok_0->0@ == piece_said(reply@)->0->0,
        r is Err ==> (r->Err_0 is Json <==> json_optional_bytes(reply@) is None),
        r is Err && r->Err_0 is NotAPiece ==> r->Err_0->NotAPiece_0 == piece_index,
        json_optional_bytes(reply@) is None ==> r is Err && r->Err_0 is Json,
        json_optional_bytes(reply@) == Some(None::<Seq<u8>>) ==> r is Ok && r->Ok_0 is None,
        json_optional_bytes(reply@) is Some && json_optional_bytes(reply@)->0 is Some
            && json_optional_bytes(reply@)->0->0.len() == PIECE_SIZE ==> r is Ok && r->Ok_0 is Some
            && r->Ok_0->0@ == json_optional_bytes(reply@)->0->0,
        json_optional_bytes(reply@) is Some && json_optional_bytes(reply@)->0 is Some
            && json_optional_bytes(reply@)->0->0.len() != PIECE_SIZE ==> r is Err && r->Err_0
            == PieceReplyError::NotAPiece(piece_index),
        reply@ == "null"@ ==> r is Ok && r->Ok_0 is None,
        forall|bytes: Seq<u8>|
            reply@ == #[trigger] json_array(bytes) && bytes.len() == PIECE_SIZE ==> r is Ok
                && r->Ok_0 is Some && r->Ok_0->0@ == bytes,
        forall|bytes: Seq<u8>|
            reply@ == #[trigger] json_array(bytes) && bytes.len() != PIECE_SIZE ==> r is Err
                && r->Err_0 is NotAPiece,
{
    match read_optional_bytes(reply) {
        Ok(bytes) => piece_of_bytes(piece_index, bytes),
        Err(error) => Err(PieceReplyError::Json(error)),
    }
}

/// A call for a piece, for a segment or with a limit hands over just that number, whatever it is,
/// so that two such calls hand over the same only if they are made for the same.
pub proof fn law_calls_hand_on_their_number(
    a: PieceIndex,
    b: PieceIndex,
    segment: SegmentIndex,
    limit: u64,
)
    ensures
        params_of(NodeCall::Piece(a)) == Parameters::Number(a.value),
        params_of(NodeCall::Piece(a)) == params_of(NodeCall::Piece(b)) ==> a == b,
        params_of(NodeCall::AcknowledgeArchivedSegmentHeader(segment)) == Parameters::Number(
            segment.value,
        ),
        params_of(NodeCall::LastSegmentHeaders(limit)) == Parameters::Number(limit),
        params_of(NodeCall::FarmerAppInfo) is Nothing,
        params_of(NodeCall::SubmitSolutionResponse) is Submission,
        params_of(NodeCall::SubmitRewardSignature) is Submission,
{
}

/// A call for segment headers hands over the number of each segment, all of them, in order.
pub proof fn law_calls_hand_on_every_segment(segments: Vec<SegmentIndex>, k: int)
    ensures
        params_of(NodeCall::SegmentHeaders(segments)) is Numbers,
        params_of(NodeCall::SegmentHeaders(segments))->Numbers_0.len() == segments@.len(),
        0 <= k < segments@.len() ==> params_of(NodeCall::SegmentHeaders(segments))->Numbers_0[k]
            == segments@[k].value,
{
}

/// What a call hands over is seen for what it is.
pub proof fn law_params_are_seen_in_full(params: CallParams)
    ensures
        params is Nothing ==> params@ is Nothing,
        params matches CallParams::Number(number) ==> params@ == Parameters::Number(number),
        params matches CallParams::Numbers(numbers) ==> params@ == Parameters::Numbers(numbers@),
        params is Submission ==> params@ is Submission,
{
}

/// What is called depends on what is wanted of the node, and not on which piece, segments or limit
/// it is wanted for.
pub proof fn law_methods_go_by_the_kind_of_call(
    segments: Vec<SegmentIndex>,
    piece: PieceIndex,
    segment: SegmentIndex,
    limit: u64,
)
    ensures
        method_of(NodeCall::FarmerAppInfo) == "subspace_getFarmerAppInfo"@,
        method_of(NodeCall::SubmitSolutionResponse) == "subspace_submitSolutionResponse"@,
        method_of(NodeCall::SubmitRewardSignature) == "subspace_submitRewardSignature"@,
        method_of(NodeCall::SegmentHeaders(segments)) == "subspace_segmentHeaders"@,
        method_of(NodeCall::Piece(piece)) == "subspace_piece"@,
        method_of(NodeCall::AcknowledgeArchivedSegmentHeader(segment))
            == "subspace_acknowledgeArchivedSegmentHeader"@,
        method_of(NodeCall::LastSegmentHeaders(limit)) == "subspace_lastSegmentHeaders"@,
{
}

/// A reply tells a piece exactly if it can be read as a run of bytes that is as long as a piece,
/// and then it tells those bytes; it tells that there is none exactly if it is read so.
pub proof fn law_replies_tell_pieces(reply: Seq<char>, bytes: Seq<u8>)
    ensures
        piece_said(reply) == Some(Some(bytes)) <==> json_optional_bytes(reply) == Some(Some(bytes))
            && bytes.len() == PIECE_SIZE,
        piece_said(reply) == Some(None::<Seq<u8>>) <==> json_optional_bytes(reply) == Some(
            None::<Seq<u8>>,
        ),
{
}

/// An array lists its bytes one after another, in decimal, with commas in between.
pub proof fn law_arrays_list_their_bytes(bytes: Seq<u8>, next: u8)
    ensures
        json_array(bytes) == seq!['['] + json_items(bytes) + seq![']'],
        json_items(seq![]) == Seq::<char>::empty(),
        json_items(seq![next]) == decimal_text(next as nat),
        bytes.len() > 0 ==> json_items(bytes.push(next)) == json_items(bytes) + seq![',']
            + decimal_text(next as nat),
{
    assert(bytes.push(next).drop_last() =~= bytes);
}

} // verus!
