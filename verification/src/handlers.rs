//! Answering the requests of other nodes.

use crate::cache::{held, law_held_pieces_are_named_in_order, MyPieceCache};
use crate::disk::{completes, outcome, Disk, Reply};
use crate::paths::{law_places_are_distinct, piece_place};
use crate::primitives::{Piece, PieceIndex, SegmentIndex, PIECE_SIZE};
use crate::read::{get_started, got, law_get_reads_the_file, GetStep, ReadError};
use crate::save::{law_save_writes_piece_and_checksum, save_started};
use vstd::prelude::*;

verus! {

/// How many cached pieces are looked up for one request.
pub const RECOMMENDED_LIMIT: usize = 128;

/// How many segment headers a cache server is asked for at a time.
pub const SEGMENT_HEADERS_LIMIT: u32 = 1000;

/// How many segment headers can be requested of a farmer at a time: as many as of the node, since
/// all requests go there.
pub const SEGMENT_HEADER_NUMBER_LIMIT: u64 = 1000;

/// A request for a piece, with other pieces that the one who asks would like to know of.
pub struct PieceByIndexRequest {
    pub piece_index: PieceIndex,
    pub cached_pieces: Vec<PieceIndex>,
}

/// The answer to a request for a piece: the piece, and which of the others are cached.
pub struct PieceByIndexResponse {
    pub piece: Option<Piece>,
    pub cached_pieces: Vec<PieceIndex>,
}

/// A piece, or peers that may have it.
pub enum PieceResult<P> {
    /// The piece.
    Piece(Piece),
    /// Peers that may have it.
    ClosestPeers(Vec<P>),
}

/// The answer to a request for a cached piece: the piece or peers that may have it, and which of
/// the other pieces are cached.
pub struct CachedPieceByIndexResponse<P> {
    pub result: PieceResult<P>,
    pub cached_pieces: Vec<PieceIndex>,
}

/// What to do about a request for a cached piece.
pub enum CachedPieceStep<P> {
    /// Give this answer.
    Answer(CachedPieceByIndexResponse<P>),
    /// Ask the network for the peers that are closest to the piece; these of the other pieces are
    /// cached.
    AskClosestPeers(Vec<PieceIndex>),
}

/// Those of the first `RECOMMENDED_LIMIT` of `asked` that are among `pieces`, in order.
pub open spec fn cached_of(pieces: Set<u64>, asked: Seq<PieceIndex>) -> Seq<PieceIndex> {
    held(
        pieces,
        if asked.len() > RECOMMENDED_LIMIT {
            asked.take(RECOMMENDED_LIMIT as int)
        } else {
            asked
        },
    )
}

/// Looks up which pieces are cached; those past the limit are passed over.
pub fn cached_pieces(cache: &MyPieceCache, asked: Vec<PieceIndex>) -> (r: Vec<PieceIndex>)
    ensures
        r@ == cached_of(cache@, asked@),
        asked@.len() <= 128 ==> r@ == held(cache@, asked@),
        asked@.len() > 128 ==> r@ == held(cache@, asked@.take(128)),
{
    let ghost all = asked@;
    let mut asked = asked;
    asked.truncate(RECOMMENDED_LIMIT);
    proof {
        if all.len() > RECOMMENDED_LIMIT {
            assert(asked@ =~= all.take(RECOMMENDED_LIMIT as int));
        } else {
            assert(asked@ =~= all);
        }
    }
    cache.has_pieces(asked)
}

/// The piece that is handed out, given what was read of it.
pub open spec fn handed_out(read: Result<Option<Seq<u8>>, ReadError>) -> Option<Seq<u8>> {
    match read {
        Ok(piece) => piece,
        Err(_) => None,
    }
}

/// Decides what to do about a request for a cached piece, given what was read of it. A piece that
/// was read is handed out. If there is none, the peers that are closest to it are asked for. If it
/// could not be read, no peers are named.
pub fn answer_cached_piece_request<P>(
    cache: &MyPieceCache,
    request: PieceByIndexRequest,
    piece: Result<Option<Piece>, ReadError>,
) -> (r: CachedPieceStep<P>)
    requires
        !(piece is Err && piece->Err_0 is Fault),
    ensures
        match got(piece) {
            Ok(Some(bytes)) => r is Answer && r->Answer_0.result is Piece
                && r->Answer_0.result->Piece_0@ == bytes && r->Answer_0.cached_pieces@ == cached_of(
                cache@,
                request.cached_pieces@,
            ),
            Ok(None) => r is AskClosestPeers && r->AskClosestPeers_0@ == cached_of(
                cache@,
                request.cached_pieces@,
            ),
            Err(_) => r is Answer && r->Answer_0.result is ClosestPeers
                && r->Answer_0.result->ClosestPeers_0@ == Seq::<P>::empty()
                && r->Answer_0.cached_pieces@ == cached_of(cache@, request.cached_pieces@),
        },
        handed_out(got(piece)) is Some <==> r is Answer && r->Answer_0.result is Piece,
        handed_out(got(piece)) is Some ==> r->Answer_0.result->Piece_0@ == handed_out(
            got(piece),
        )->0,
        piece is Ok && piece->Ok_0 is Some ==> r is Answer && r->Answer_0.result is Piece
            && r->Answer_0.result->Piece_0@ == piece->Ok_0->0@,
        piece is Ok && piece->Ok_0 is None ==> r is AskClosestPeers,
        piece is Err ==> r is Answer && r->Answer_0.result is ClosestPeers
            && r->Answer_0.result->ClosestPeers_0@.len() == 0,
{
    let cached_pieces = cached_pieces(cache, request.cached_pieces);
    match piece {
        Ok(Some(piece)) => CachedPieceStep::Answer(
            CachedPieceByIndexResponse { result: PieceResult::Piece(piece), cached_pieces },
        ),
        Ok(None) => CachedPieceStep::AskClosestPeers(cached_pieces),
        Err(_) => CachedPieceStep::Answer(
            CachedPieceByIndexResponse {
                result: PieceResult::ClosestPeers(Vec::new()),
                cached_pieces,
            },
        ),
    }
}

/// Answers a request for a cached piece with the peers that are closest to it: what the network
/// named, or none if the network is gone or could not be asked.
pub fn answer_with_closest_peers<P>(
    cached_pieces: Vec<PieceIndex>,
    peers: Option<Result<Vec<P>, String>>,
) -> (r: CachedPieceByIndexResponse<P>)
    ensures
        r.cached_pieces@ == cached_pieces@,
        r.result is ClosestPeers,
        peers is Some && peers->0 is Ok ==> r.result->ClosestPeers_0@ == peers->0->Ok_0@,
        !(peers is Some && peers->0 is Ok) ==> r.result->ClosestPeers_0@ == Seq::<P>::empty(),
{
    let peers = match peers {
        Some(Ok(peers)) => peers,
        _ => Vec::new(),
    };
    CachedPieceByIndexResponse { result: PieceResult::ClosestPeers(peers), cached_pieces }
}

/// Answers a request for a piece, given what was read of it: there is an answer only with the
/// piece.
pub fn answer_piece_request(
    cache: &MyPieceCache,
    request: PieceByIndexRequest,
    piece: Result<Option<Piece>, ReadError>,
) -> (r: Option<PieceByIndexResponse>)
    requires
        !(piece is Err && piece->Err_0 is Fault),
    ensures
        r is Some <==> handed_out(got(piece)) is Some,
        r is Some ==> r->0.piece is Some && r->0.piece->0@ == handed_out(got(piece))->0,
        r is Some ==> r->0.cached_pieces@ == cached_of(cache@, request.cached_pieces@),
        r is Some <==> piece is Ok && piece->Ok_0 is Some,
        r is Some ==> r->0.piece->0@ == piece->Ok_0->0@,
{
    let cached_pieces = cached_pieces(cache, request.cached_pieces);
    match piece {
        Ok(Some(piece)) => Some(PieceByIndexResponse { piece: Some(piece), cached_pieces }),
        _ => None,
    }
}

/// A request for segment headers.
pub enum SegmentHeaderRequest {
    /// Those of these segments.
    SegmentIndexes(Vec<SegmentIndex>),
    /// As many of the last ones as the limit says.
    LastSegmentHeaders(u64),
}

/// What to ask the node for.
pub enum HeaderQuery {
    /// The headers of these segments.
    Of(Vec<SegmentIndex>),
    /// This many of the last headers.
    Last(u64),
}

/// The lesser of two numbers.
pub open spec fn capped(n: u64, limit: u64) -> u64 {
    if n > limit {
        limit
    } else {
        n
    }
}

/// Whether `query` asks for no more headers than the limit.
pub open spec fn within_limit(query: HeaderQuery) -> bool {
    match query {
        HeaderQuery::Of(indexes) => indexes@.len() <= SEGMENT_HEADERS_LIMIT,
        HeaderQuery::Last(limit) => limit <= SEGMENT_HEADERS_LIMIT,
    }
}

/// What a cache server asks the node for to answer a request for segment headers. It refuses one
/// that names more segments than the limit, and of the last headers it asks for no more than that.
pub fn query_headers(request: SegmentHeaderRequest) -> (r: Option<HeaderQuery>)
    ensures
        match request {
            SegmentHeaderRequest::SegmentIndexes(indexes) => if indexes@.len()
                > SEGMENT_HEADERS_LIMIT {
                r is None
            } else {
                r == Some(HeaderQuery::Of(indexes))
            },
            SegmentHeaderRequest::LastSegmentHeaders(limit) => r == Some(
                HeaderQuery::Last(capped(limit, SEGMENT_HEADERS_LIMIT as u64)),
            ),
        },
        r is Some ==> within_limit(r->0),
        request is SegmentIndexes && request->SegmentIndexes_0@.len() <= 1000 ==> r == Some(
            HeaderQuery::Of(request->SegmentIndexes_0),
        ),
        request is SegmentIndexes && request->SegmentIndexes_0@.len() > 1000 ==> r is None,
        request is LastSegmentHeaders && request->LastSegmentHeaders_0 <= 1000 ==> r == Some(
            HeaderQuery::Last(request->LastSegmentHeaders_0),
        ),
        request is LastSegmentHeaders && request->LastSegmentHeaders_0 > 1000 ==> r == Some(
            HeaderQuery::Last(1000),
        ),
{
    match request {
        SegmentHeaderRequest::SegmentIndexes(indexes) => {
            if indexes.len() > SEGMENT_HEADERS_LIMIT as usize {
                return None;
            }
            Some(HeaderQuery::Of(indexes))
        },
        SegmentHeaderRequest::LastSegmentHeaders(limit) => {
            let mut limit: u64 = limit;
            if limit > SEGMENT_HEADERS_LIMIT as u64 {
                limit = SEGMENT_HEADERS_LIMIT as u64;
            }
            Some(HeaderQuery::Last(limit))
        },
    }
}

/// Whether none of `headers` is missing.
pub open spec fn all_there<H>(headers: Seq<Option<H>>) -> bool {
    forall|i: int| 0 <= i < headers.len() ==> (#[trigger] headers[i]) is Some
}

/// The answer to a request for segment headers, given what the node said: all of the headers, or
/// none if one is missing or the node could not be asked.
pub fn answer_headers<H>(reply: Result<Vec<Option<H>>, String>) -> (r: Option<Vec<H>>)
    ensures
        r is Some <==> reply is Ok && all_there(reply->Ok_0@),
        r is Some <==> reply is Ok && forall|i: int|
            0 <= i < reply->Ok_0@.len() ==> (#[trigger] reply->Ok_0@[i]) is Some,
        r is Some ==> r->0@ == reply->Ok_0@.map_values(|h: Option<H>| h->0),
{
    let mut headers = match reply {
        Ok(headers) => headers,
        Err(_) => return None,
    };
    let ghost all = headers@;
    let mut reversed: Vec<H> = Vec::new();
    while headers.len() > 0
        invariant
            reply is Ok,
            reply->Ok_0@ == all,
            headers@.len() + reversed@.len() == all.len(),
            headers@ == all.take(headers@.len() as int),
            forall|i: int|
                headers@.len() <= i < all.len() ==> (#[trigger] all[i]) is Some && all[i]->0
                    == reversed@[all.len() - 1 - i],
        decreases headers@.len(),
    {
        let ghost n = headers@.len() - 1;
        match headers.pop() {
            Some(Some(header)) => {
                assert(all[n] == Some(header));
                reversed.push(header);
                assert(headers@ =~= all.take(n));
            },
            _ => {
                assert(!(reply->Ok_0@[n] is Some));
                return None;
            },
        }
    }
    let ghost backwards = reversed@;
    let mut r: Vec<H> = Vec::new();
    while reversed.len() > 0
        invariant
            backwards.len() == all.len(),
            reversed@.len() + r@.len() == all.len(),
            reversed@ == backwards.take(reversed@.len() as int),
            forall|i: int|
                0 <= i < all.len() ==> (#[trigger] all[i]) is Some && all[i]->0
                    == backwards[all.len() - 1 - i],
            forall|i: int| 0 <= i < r@.len() ==> #[trigger] r@[i] == all[i]->0,
        decreases reversed@.len(),
    {
        let ghost n = reversed@.len() - 1;
        match reversed.pop() {
            Some(header) => {
                assert(header == backwards[n]);
                assert(all[all.len() - 1 - n]->0 == backwards[n]);
                r.push(header);
                assert(reversed@ =~= backwards.take(n));
            },
            None => {},
        }
    }
    assert(r@ =~= all.map_values(|h: Option<H>| h->0));
    Some(r)
}

/// Whether a farmer refuses every request, given the setting that says so, if there is one.
pub fn refuses_requests(setting: Option<String>) -> (r: bool)
    ensures
        r == (setting is Some && setting->0@ == "1"@),
{
    match setting {
        Some(setting) => setting == "1".to_owned(),
        None => false,
    }
}

/// What a farmer has of a piece that is not in its cache.
pub enum PlottedPiece {
    /// The plots are gone.
    Dropped,
    /// The plots are not known yet.
    NotInitialized,
    /// The piece is in no plot.
    NotPlotted,
    /// What reading the piece from its plot gave.
    Read(Option<Piece>),
}

/// What a farmer does first about a request for a piece.
#[derive(Clone, Copy, Debug, PartialEq, Eq, Structural)]
pub enum FarmerPieceStart {
    /// Give no answer, and look the piece up nowhere.
    Refuse,
    /// Look for the piece in the cache.
    AskCache,
}

/// Decides what a farmer does first about a request for a piece. A farmer that refuses every
/// request looks the piece up nowhere.
pub fn farmer_piece_start(refuse_request: bool) -> (r: FarmerPieceStart)
    ensures
        refuse_request ==> r is Refuse,
        !refuse_request ==> r is AskCache,
{
    if refuse_request {
        FarmerPieceStart::Refuse
    } else {
        FarmerPieceStart::AskCache
    }
}

/// What a farmer does about a request for a piece once its cache was asked.
pub enum FarmerPieceStep {
    /// Answer with the piece.
    Answer(Piece),
    /// Look for the piece in the plots.
    ReadPlots,
}

/// Decides what a farmer does about a request for a piece, given what its cache has of it.
pub fn answer_from_farmer_cache(cached: Option<Piece>) -> (r: FarmerPieceStep)
    ensures
        cached is Some ==> r is Answer && r->Answer_0@ == cached->0@,
        cached is None ==> r is ReadPlots,
{
    match cached {
        Some(piece) => FarmerPieceStep::Answer(piece),
        None => FarmerPieceStep::ReadPlots,
    }
}

/// Answers a request for a piece from a farmer's plots. There is no answer if the plots are gone,
/// not known yet or without the piece; a piece that could not be read is answered with none.
pub fn answer_from_plots(plotted: PlottedPiece) -> (r: Option<Option<Piece>>)
    ensures
        r is Some <==> plotted is Read,
        plotted is Read ==> r->0 == plotted->Read_0,
{
    match plotted {
        PlottedPiece::Read(piece) => Some(piece),
        _ => None,
    }
}

/// What a farmer asks the node for to answer a request for segment headers. It refuses every
/// request if it is told to, and one that names more segments than the limit; of the last headers
/// it asks for no more than that.
pub fn query_farmer_headers(refuse_request: bool, request: SegmentHeaderRequest) -> (r: Option<
    HeaderQuery,
>)
    ensures
        refuse_request ==> r is None,
        !refuse_request ==> match request {
            SegmentHeaderRequest::SegmentIndexes(indexes) => if indexes@.len()
                > SEGMENT_HEADER_NUMBER_LIMIT {
                r is None
            } else {
                r == Some(HeaderQuery::Of(indexes))
            },
            SegmentHeaderRequest::LastSegmentHeaders(limit) => r == Some(
                HeaderQuery::Last(capped(limit, SEGMENT_HEADER_NUMBER_LIMIT)),
            ),
        },
        r is Some ==> within_limit(r->0),
        !refuse_request && request is SegmentIndexes && request->SegmentIndexes_0@.len() <= 1000
            ==> r == Some(HeaderQuery::Of(request->SegmentIndexes_0)),
        !refuse_request && request is SegmentIndexes && request->SegmentIndexes_0@.len() > 1000
            ==> r is None,
        !refuse_request && request is LastSegmentHeaders && request->LastSegmentHeaders_0 <= 1000
            ==> r == Some(HeaderQuery::Last(request->LastSegmentHeaders_0)),
        !refuse_request && request is LastSegmentHeaders && request->LastSegmentHeaders_0 > 1000
            ==> r == Some(HeaderQuery::Last(1000)),
{
    if refuse_request {
        return None;
    }
    match request {
        SegmentHeaderRequest::SegmentIndexes(indexes) => {
            if indexes.len() as u64 > SEGMENT_HEADER_NUMBER_LIMIT {
                return None;
            }
            Some(HeaderQuery::Of(indexes))
        },
        SegmentHeaderRequest::LastSegmentHeaders(limit) => {
            let mut segment_header_number: u64 = limit;
            if segment_header_number > SEGMENT_HEADER_NUMBER_LIMIT {
                segment_header_number = SEGMENT_HEADER_NUMBER_LIMIT;
            }
            Some(HeaderQuery::Last(segment_header_number))
        },
    }
}

/// A piece that was saved where there was no file of it is handed out to those who ask for it.
pub proof fn law_saved_piece_is_handed_out(
    disk: Disk,
    index: u64,
    piece: Seq<u8>,
    save_replies: Seq<Reply>,
    get_replies: Seq<Reply>,
    read: Result<Option<Seq<u8>>, ReadError>,
)
    requires
        piece.len() == PIECE_SIZE,
        !disk.has(piece_place(index)),
        completes(save_started(index, piece), disk, save_replies),
        completes(
            get_started(index),
            outcome(save_started(index, piece), disk, save_replies).1,
            get_replies,
        ),
        outcome(
            get_started(index),
            outcome(save_started(index, piece), disk, save_replies).1,
            get_replies,
        ).0.step == GetStep::Over(read),
    ensures
        handed_out(read) == Some(piece),
{
    let saved = outcome(save_started(index, piece), disk, save_replies).1;
    law_save_writes_piece_and_checksum(disk, index, piece, save_replies);
    law_places_are_distinct(index, index);
    assert(saved.has(piece_place(index)));
    assert(saved.content(piece_place(index)) == piece);
    law_get_reads_the_file(saved, index, get_replies);
}

/// What is named as cached is cached, was asked for, and is no more than the limit.
pub proof fn law_named_pieces_are_cached(pieces: Set<u64>, asked: Seq<PieceIndex>)
    ensures
        cached_of(pieces, asked).len() <= RECOMMENDED_LIMIT,
        forall|k: int|
            0 <= k < cached_of(pieces, asked).len() ==> pieces.contains(
                (#[trigger] cached_of(pieces, asked)[k]).value,
            ) && asked.contains(cached_of(pieces, asked)[k]),
{
    let looked_at = if asked.len() > RECOMMENDED_LIMIT {
        asked.take(RECOMMENDED_LIMIT as int)
    } else {
        asked
    };
    lemma_held(pieces, looked_at);
    assert forall|k: int| 0 <= k < cached_of(pieces, asked).len() implies asked.contains(
        #[trigger] cached_of(pieces, asked)[k],
    ) by {
        let found = held(pieces, looked_at)[k];
        let l = choose|l: int| 0 <= l < looked_at.len() && looked_at[l] == found;
        assert(asked[l] == found);
    }
}

proof fn lemma_held(pieces: Set<u64>, asked: Seq<PieceIndex>)
    ensures
        held(pieces, asked).len() <= asked.len(),
        forall|k: int|
            0 <= k < held(pieces, asked).len() ==> pieces.contains(
                (#[trigger] held(pieces, asked)[k]).value,
            ) && asked.contains(held(pieces, asked)[k]),
    decreases asked.len(),
{
    reveal(Seq::filter);
    if asked.len() > 0 {
        let shorter = asked.drop_last();
        lemma_held(pieces, shorter);
        assert forall|k: int| 0 <= k < held(pieces, asked).len() implies pieces.contains(
            (#[trigger] held(pieces, asked)[k]).value,
        ) && asked.contains(held(pieces, asked)[k]) by {
            if k < held(pieces, shorter).len() {
                let found = held(pieces, shorter)[k];
                assert(held(pieces, asked)[k] == found);
                let l = choose|l: int| 0 <= l < shorter.len() && shorter[l] == found;
                assert(asked[l] == found);
            } else {
                assert(asked[asked.len() - 1] == held(pieces, asked)[k]);
            }
        }
    }
}

/// Every piece that is asked about and cached is named, among the first 128 that are asked about;
/// those past them are passed over.
pub proof fn law_cached_pieces_are_named(pieces: Set<u64>, asked: Seq<PieceIndex>, k: int)
    requires
        0 <= k < asked.len(),
        k < 128,
        pieces.contains(asked[k].value),
    ensures
        cached_of(pieces, asked).contains(asked[k]),
        asked.len() > 128 ==> cached_of(pieces, asked) == cached_of(pieces, asked.take(128)),
{
    let looked_at = if asked.len() > RECOMMENDED_LIMIT {
        asked.take(RECOMMENDED_LIMIT as int)
    } else {
        asked
    };
    lemma_held_in_full(pieces, looked_at, k);
}

proof fn lemma_held_in_full(pieces: Set<u64>, asked: Seq<PieceIndex>, k: int)
    requires
        0 <= k < asked.len(),
        pieces.contains(asked[k].value),
    ensures
        held(pieces, asked).contains(asked[k]),
    decreases asked.len(),
{
    let shorter = asked.drop_last();
    law_held_pieces_are_named_in_order(pieces, shorter, asked.last());
    assert(asked =~= shorter.push(asked.last()));
    let found = held(pieces, asked);
    if k < shorter.len() {
        lemma_held_in_full(pieces, shorter, k);
        let before = held(pieces, shorter);
        let l = choose|l: int| 0 <= l < before.len() && before[l] == shorter[k];
        assert(found[l] == asked[k]);
    } else {
        assert(found[found.len() - 1] == asked[k]);
    }
}

/// Of the last headers as many are asked for as were requested, or as many as the limit allows if
/// that is fewer.
pub proof fn law_limits_are_kept(n: u64, limit: u64)
    ensures
        capped(n, limit) <= n,
        capped(n, limit) <= limit,
        capped(n, limit) == n || capped(n, limit) == limit,
        within_limit(HeaderQuery::Last(n)) <==> n <= 1000,
{
}

/// What was read is handed out, and nothing is handed out that was not read.
pub proof fn law_what_was_read_is_handed_out(read: Result<Option<Seq<u8>>, ReadError>)
    ensures
        handed_out(read) matches Some(bytes) ==> read == Ok::<Option<Seq<u8>>, ReadError>(
            Some(bytes),
        ),
        handed_out(read) is None ==> read is Err || read->Ok_0 is None,
{
}

/// The pieces that are asked about are looked up in order, the first 128 of them.
pub proof fn law_lookup_stops_at_the_limit(pieces: Set<u64>, asked: Seq<PieceIndex>)
    ensures
        asked.len() <= 128 ==> cached_of(pieces, asked) == held(pieces, asked),
        asked.len() > 128 ==> cached_of(pieces, asked) == held(pieces, asked.take(128)),
{
}

} // verus!
