//! Keeping the cache complete: which pieces to ask for, and when.

use crate::cache::{is_greatest, MyPieceCache};
use crate::download::{
    after_events, answer_of, download_started, law_answer_tells_whether_saved, lemma_request_stays,
    was_saved, DownloadRequest, Event,
};
use crate::primitives::{
    first_piece_of, last_piece_of, PieceIndex, SegmentIndex, PIECES_PER_SEGMENT,
};
use vstd::prelude::*;

verus! {

/// How many seconds to wait before asking again for announcements of new segments.
pub const SUBSCRIPTION_RETRY_SECONDS: u64 = 5;

/// How many seconds to wait between two searches for missing pieces.
pub const SEARCH_INTERVAL_SECONDS: u64 = 120;

/// The request for a piece that no one waits for, from every source.
pub open spec fn plain_request(index: u64) -> DownloadRequest {
    DownloadRequest {
        piece_index: PieceIndex { value: index },
        only_l1: false,
        wants_answer: false,
    }
}

/// Asks for a piece from every source.
pub fn request_piece(index: PieceIndex) -> (r: DownloadRequest)
    ensures
        r == plain_request(index.value),
        r.piece_index == index,
        !r.only_l1,
        !r.wants_answer,
{
    DownloadRequest { piece_index: index, only_l1: false, wants_answer: false }
}

/// What to ask for once a segment was archived: every piece of it, in order, from every source.
pub fn new_segment_requests(segment_index: SegmentIndex) -> (r: Vec<DownloadRequest>)
    requires
        last_piece_of(segment_index.value) <= u64::MAX,
    ensures
        asks_for_segment(segment_index.value, r@),
        r@.len() == 256,
        forall|i: int|
            0 <= i < 256 ==> (#[trigger] r@[i]).piece_index.value == segment_index.value * 256 + i
                && !r@[i].only_l1 && !r@[i].wants_answer,
{
    let indexes = segment_index.segment_piece_indexes();
    let mut r: Vec<DownloadRequest> = Vec::new();
    let mut i: usize = 0;
    while i < indexes.len()
        invariant
            i <= indexes.len(),
            indexes@.len() == PIECES_PER_SEGMENT,
            forall|j: int|
                0 <= j < PIECES_PER_SEGMENT ==> (#[trigger] indexes@[j]).value == first_piece_of(
                    segment_index.value,
                ) + j,
            r@.len() == i,
            forall|j: int|
                0 <= j < i ==> #[trigger] r@[j] == plain_request(
                    (first_piece_of(segment_index.value) + j) as u64,
                ),
        decreases indexes.len() - i,
    {
        r.push(request_piece(indexes[i]));
        i += 1;
    }
    r
}

/// Whether `missing` is what is missing among the first `count` pieces: every one that is not
/// among `pieces`, once, the latest first.
pub open spec fn is_missing(pieces: Set<u64>, count: int, missing: Seq<PieceIndex>) -> bool {
    &&& forall|k: int|
        0 <= k < missing.len() ==> (#[trigger] missing[k]).value < count && !pieces.contains(
            missing[k].value,
        )
    &&& forall|i: u64|
        i < count && !(#[trigger] pieces.contains(i)) ==> missing.contains(PieceIndex { value: i })
    &&& forall|k: int, l: int|
        0 <= k < l < missing.len() ==> (#[trigger] missing[k]).value > (
        #[trigger] missing[l]).value
}

/// The pieces of the segments up to `last_segment` that the cache does not hold, the latest first.
pub fn missing_pieces(cache: &MyPieceCache, last_segment: SegmentIndex) -> (r: Vec<PieceIndex>)
    requires
        last_piece_of(last_segment.value) <= u64::MAX,
    ensures
        is_missing(cache@, last_piece_of(last_segment.value) + 1, r@),
        forall|i: u64|
            i <= last_segment.value * 256 + 255 && !(#[trigger] cache@.contains(i)) ==> r@.contains(
                PieceIndex { value: i },
            ),
        forall|k: int|
            0 <= k < r@.len() ==> (#[trigger] r@[k]).value <= last_segment.value * 256 + 255
                && !cache@.contains(r@[k].value),
        forall|k: int, l: int|
            0 <= k < l < r@.len() ==> (#[trigger] r@[k]).value > (#[trigger] r@[l]).value,
{
    let last = last_segment.last_piece_index();
    let mut r: Vec<PieceIndex> = Vec::new();
    let mut index: u64 = last.value;
    let mut more = true;
    while more
        invariant
            index <= last.value,
            !more ==> index == 0,
            forall|k: int|
                0 <= k < r@.len() ==> (#[trigger] r@[k]).value <= last.value && !cache@.contains(
                    r@[k].value,
                ),
            forall|k: int|
                0 <= k < r@.len() ==> (#[trigger] r@[k]).value > index || !more,
            forall|i: u64|
                (i > index || !more) && i <= last.value && !(#[trigger] cache@.contains(i))
                    ==> r@.contains(PieceIndex { value: i }),
            forall|k: int, l: int|
                0 <= k < l < r@.len() ==> (#[trigger] r@[k]).value > (#[trigger] r@[l]).value,
        decreases index + (if more { 1int } else { 0int }),
    {
        let ghost before = r@;
        let candidate = PieceIndex::from(index);
        if !cache.has_piece(&candidate) {
            r.push(candidate);
        }
        proof {
            assert forall|i: u64|
                (i > index || i == index) && i <= last.value && !(#[trigger] cache@.contains(
                    i,
                )) implies r@.contains(PieceIndex { value: i }) by {
                if i == index {
                    assert(r@[before.len() as int] == PieceIndex { value: i });
                } else {
                    assert(before.contains(PieceIndex { value: i }));
                    let k = choose|k: int|
                        0 <= k < before.len() && before[k] == PieceIndex { value: i };
                    assert(r@[k] == PieceIndex { value: i });
                }
            }
        }
        if index == 0 {
            more = false;
        } else {
            index = index - 1;
        }
    }
    r
}

/// What to ask for in a search for missing pieces: each of them, in order, from every source.
pub fn missing_piece_requests(missing: &Vec<PieceIndex>) -> (r: Vec<DownloadRequest>)
    ensures
        r@ == missing@.map_values(|i: PieceIndex| plain_request(i.value)),
        r@.len() == missing@.len(),
        forall|k: int|
            0 <= k < missing@.len() ==> (#[trigger] r@[k]).piece_index == missing@[k]
                && !r@[k].only_l1 && !r@[k].wants_answer,
{
    let mut r: Vec<DownloadRequest> = Vec::new();
    let mut i: usize = 0;
    while i < missing.len()
        invariant
            i <= missing.len(),
            r@.len() == i,
            forall|j: int|
                0 <= j < i ==> #[trigger] r@[j] == plain_request(missing@[j].value),
        decreases missing.len() - i,
    {
        r.push(request_piece(missing[i]));
        i += 1;
    }
    assert(r@ =~= missing@.map_values(|i: PieceIndex| plain_request(i.value)));
    r
}

/// The search for pieces that the node does not know of yet, past the greatest one that is cached.
#[derive(Clone, Copy, Debug, PartialEq, Eq, Structural)]
pub struct FuturePieceSearch {
    /// The piece to ask for next.
    pub next_piece_index: PieceIndex,
}

/// How asking for a piece went.
#[derive(Clone, Copy, Debug, PartialEq, Eq, Structural)]
pub enum SearchEvent {
    /// The request could not be handed over.
    NotSent,
    /// The piece was saved.
    Saved,
    /// No source had the piece.
    NotFound,
    /// There will be no answer.
    NoAnswer,
}

/// How the search goes on after `event`.
pub open spec fn search_after(search: FuturePieceSearch, event: SearchEvent) -> Option<
    FuturePieceSearch,
> {
    match event {
        SearchEvent::NotSent => Some(search),
        SearchEvent::Saved => Some(
            FuturePieceSearch {
                next_piece_index: PieceIndex {
                    value: (search.next_piece_index.value + 1) as u64,
                },
            },
        ),
        SearchEvent::NotFound => None,
        SearchEvent::NoAnswer => None,
    }
}

/// The request for a piece that someone waits for, archival storage left alone.
pub open spec fn search_request(index: PieceIndex) -> DownloadRequest {
    DownloadRequest { piece_index: index, only_l1: true, wants_answer: true }
}

impl FuturePieceSearch {
    /// Starts the search at the piece that follows the greatest cached one, unless it is disabled.
    pub fn start(cache: &MyPieceCache, disabled: bool) -> (r: Option<FuturePieceSearch>)
        requires
            disabled || !cache@.contains(u64::MAX),
        ensures
            r is None <==> disabled,
            r is Some ==> r->0.next_piece_index.value >= 1 && is_greatest(
                cache@,
                (r->0.next_piece_index.value - 1) as u64,
            ),
            r is Some ==> forall|i: u64| #[trigger]
                cache@.contains(i) ==> i < r->0.next_piece_index.value,
            r is Some && r->0.next_piece_index.value > 1 ==> cache@.contains(
                (r->0.next_piece_index.value - 1) as u64,
            ),
    {
        if disabled {
            return None;
        }
        let greatest = cache.max_piece_index();
        assert(greatest.value < u64::MAX);
        Some(FuturePieceSearch { next_piece_index: PieceIndex::from(greatest.value + 1) })
    }

    /// What to ask for: the next piece, not from archival storage, with an answer.
    pub fn request(&self) -> (r: DownloadRequest)
        ensures
            r == search_request(self.next_piece_index),
            r.piece_index == self.next_piece_index,
            r.only_l1,
            r.wants_answer,
    {
        DownloadRequest {
            piece_index: self.next_piece_index,
            only_l1: true,
            wants_answer: true,
        }
    }

    /// Goes on after `event`: with the same piece if the request could not be handed over, with the
    /// next one if the piece was saved, and not at all otherwise.
    pub fn advance(self, event: SearchEvent) -> (r: Option<FuturePieceSearch>)
        requires
            event is Saved ==> self.next_piece_index.value < u64::MAX,
        ensures
            r == search_after(self, event),
            event is NotSent ==> r == Some(self),
            event is Saved ==> r is Some && r->0.next_piece_index.value
                == self.next_piece_index.value + 1,
            event is NotFound || event is NoAnswer ==> r is None,
    {
        match event {
            SearchEvent::NotSent => Some(self),
            SearchEvent::Saved => Some(
                FuturePieceSearch {
                    next_piece_index: PieceIndex::from(self.next_piece_index.value + 1),
                },
            ),
            SearchEvent::NotFound => None,
            SearchEvent::NoAnswer => None,
        }
    }
}

/// What an answer to a request for a piece means for the search.
pub open spec fn event_of(answer: Option<bool>) -> SearchEvent {
    match answer {
        Some(true) => SearchEvent::Saved,
        Some(false) => SearchEvent::NotFound,
        None => SearchEvent::NoAnswer,
    }
}

/// What to make of an answer to a request for a piece; none comes if the request was dropped.
pub fn search_event(answer: Option<bool>) -> (r: SearchEvent)
    ensures
        r == event_of(answer),
        answer == Some(true) ==> r is Saved,
        answer == Some(false) ==> r is NotFound,
        answer is None ==> r is NoAnswer,
{
    match answer {
        Some(true) => SearchEvent::Saved,
        Some(false) => SearchEvent::NotFound,
        None => SearchEvent::NoAnswer,
    }
}

/// How far the watch for newly archived segments has got.
#[derive(Clone, Copy, Debug, PartialEq, Eq, Structural)]
pub enum WatchStage {
    /// Ask the node to announce newly archived segments.
    Subscribe,
    /// Wait for the next announcement.
    Watch,
}

/// What happened while watching.
#[derive(Clone, Copy, Debug, PartialEq, Eq, Structural)]
pub enum WatchEvent {
    /// The node will announce newly archived segments.
    Subscribed,
    /// The node could not be asked.
    NotSubscribed,
    /// A segment was archived.
    Archived(SegmentIndex),
    /// There was no announcement.
    Silence,
}

/// What follows an event: which pieces to ask for, how many seconds to wait, and how to go on then.
pub struct WatchStep {
    pub requests: Vec<DownloadRequest>,
    pub pause_seconds: u64,
    pub stage: WatchStage,
}

/// Whether `requests` ask for every piece of segment `segment`, in order, from every source.
pub open spec fn asks_for_segment(segment: u64, requests: Seq<DownloadRequest>) -> bool {
    &&& requests.len() == PIECES_PER_SEGMENT
    &&& forall|i: int|
        0 <= i < PIECES_PER_SEGMENT ==> #[trigger] requests[i] == plain_request(
            (first_piece_of(segment) + i) as u64,
        )
}

impl WatchStage {
    /// How to go on after `event`. Once the node announces segments it is not asked to again.
    pub fn advance(self, event: WatchEvent) -> (r: WatchStep)
        requires
            event is Archived ==> last_piece_of(event->Archived_0.value) <= u64::MAX,
        ensures
            self is Watch && event is Archived ==> asks_for_segment(
                event->Archived_0.value,
                r.requests@,
            ),
            self is Watch && event is Archived ==> r.requests@.len() == 256 && forall|i: int|
                0 <= i < 256 ==> (#[trigger] r.requests@[i]).piece_index.value
                    == event->Archived_0.value * 256 + i && !r.requests@[i].only_l1
                    && !r.requests@[i].wants_answer,
            !(self is Watch && event is Archived) ==> r.requests@.len() == 0,
            r.pause_seconds == if (self is Subscribe && event is NotSubscribed) || (self is Watch
                && event is Silence) {
                SUBSCRIPTION_RETRY_SECONDS
            } else {
                0
            },
            r.stage is Watch <==> self is Watch || event is Subscribed,
    {
        let requests: Vec<DownloadRequest> = match (self, event) {
            (WatchStage::Watch, WatchEvent::Archived(segment_index)) => new_segment_requests(
                segment_index,
            ),
            _ => Vec::new(),
        };
        let pause_seconds: u64 = match (self, event) {
            (WatchStage::Subscribe, WatchEvent::NotSubscribed) => SUBSCRIPTION_RETRY_SECONDS,
            (WatchStage::Watch, WatchEvent::Silence) => SUBSCRIPTION_RETRY_SECONDS,
            _ => 0,
        };
        let stage = match (self, event) {
            (WatchStage::Watch, _) => WatchStage::Watch,
            (_, WatchEvent::Subscribed) => WatchStage::Watch,
            _ => WatchStage::Subscribe,
        };
        WatchStep { requests, pause_seconds, stage }
    }
}

/// How far a round of repairs has got.
#[derive(Clone, Copy, Debug, PartialEq, Eq, Structural)]
pub enum RepairStage {
    /// Ask the node how long the history is.
    AskNode,
    /// Ask for what is missing up to the end of this segment.
    Fill(SegmentIndex),
    /// Ask for a piece that the node does not know of yet.
    Search(FuturePieceSearch),
    /// Wait for the next round.
    Pause,
}

/// What happened in a round of repairs.
#[derive(Clone, Copy, Debug, PartialEq, Eq, Structural)]
pub enum RepairEvent {
    /// The history is this many segments long.
    History(u64),
    /// The node could not be asked.
    NoHistory,
    /// What was to be asked for was asked for.
    Filled,
    /// How the search went.
    Searched(SearchEvent),
    /// The wait is over.
    Paused,
}

/// What to do in a round of repairs.
pub enum RepairAction {
    /// Ask the node how long the history is.
    AskNode,
    /// Make these requests; one that cannot be made is passed over.
    Fill(Vec<DownloadRequest>),
    /// Make this request and wait for the answer.
    Search(DownloadRequest),
    /// Wait for this many seconds.
    Pause(u64),
}

/// How a round of repairs goes on from `stage` after `event`, if the greatest piece that is cached
/// is `greatest`: a known history is filled; then, unless `disabled`, pieces past the cached ones
/// are asked for until one is not found; then the next round is waited for.
pub open spec fn repair_after(
    stage: RepairStage,
    greatest: u64,
    disabled: bool,
    event: RepairEvent,
) -> RepairStage {
    match stage {
        RepairStage::AskNode => match event {
            RepairEvent::History(history_size) => RepairStage::Fill(
                SegmentIndex { value: (history_size - 1) as u64 },
            ),
            _ => RepairStage::Pause,
        },
        RepairStage::Fill(_) => if disabled {
            RepairStage::Pause
        } else {
            RepairStage::Search(
                FuturePieceSearch { next_piece_index: PieceIndex { value: (greatest + 1) as u64 } },
            )
        },
        RepairStage::Search(search) => match event {
            RepairEvent::Searched(event) => match search_after(search, event) {
                Some(search) => RepairStage::Search(search),
                None => RepairStage::Pause,
            },
            _ => RepairStage::Pause,
        },
        RepairStage::Pause => RepairStage::AskNode,
    }
}

/// Whether one of `requests` asks for piece `i`, from every source.
pub open spec fn names_piece(requests: Seq<DownloadRequest>, i: u64) -> bool {
    exists|k: int|
        0 <= k < requests.len() && (#[trigger] requests[k]).piece_index.value == i
            && !requests[k].only_l1 && !requests[k].wants_answer
}

/// Whether `requests` ask for every piece up to the end of segment `last_segment` that is not among
/// `pieces`, and for no other, the latest first.
pub open spec fn fills(
    pieces: Set<u64>,
    last_segment: u64,
    requests: Seq<DownloadRequest>,
) -> bool {
    &&& forall|i: u64|
        i < (last_segment + 1) * 256 && !(#[trigger] pieces.contains(i)) ==> names_piece(
            requests,
            i,
        )
    &&& forall|k: int|
        0 <= k < requests.len() ==> (#[trigger] requests[k]).piece_index.value < (last_segment + 1)
            * 256 && !pieces.contains(requests[k].piece_index.value)
    &&& forall|k: int, l: int|
        0 <= k < l < requests.len() ==> (#[trigger] requests[k]).piece_index.value > (
        #[trigger] requests[l]).piece_index.value
}

impl RepairStage {
    /// What to do next.
    pub fn action(self, cache: &MyPieceCache) -> (r: RepairAction)
        requires
            self is Fill ==> last_piece_of(self->Fill_0.value) <= u64::MAX,
        ensures
            match self {
                RepairStage::AskNode => r is AskNode,
                RepairStage::Fill(last_segment) => {
                    &&& r is Fill
                    &&& exists|missing: Seq<PieceIndex>| #[trigger]
                        is_missing(cache@, last_piece_of(last_segment.value) + 1, missing)
                            && r->Fill_0@ == missing.map_values(
                            |i: PieceIndex| plain_request(i.value),
                        )
                },
                RepairStage::Search(search) => r == RepairAction::Search(
                    search_request(search.next_piece_index),
                ),
                RepairStage::Pause => r == RepairAction::Pause(SEARCH_INTERVAL_SECONDS),
            },
            self is Fill ==> r is Fill && fills(cache@, self->Fill_0.value, r->Fill_0@),
            self is Search ==> r is Search && r->Search_0.piece_index
                == self->Search_0.next_piece_index && r->Search_0.only_l1
                && r->Search_0.wants_answer,
    {
        match self {
            RepairStage::AskNode => RepairAction::AskNode,
            RepairStage::Fill(last_segment) => {
                let missing = missing_pieces(cache, last_segment);
                let requests = missing_piece_requests(&missing);
                proof {
                    assert forall|i: u64|
                        i < (last_segment.value + 1) * 256 && !(#[trigger] cache@.contains(
                            i,
                        )) implies names_piece(requests@, i) by {
                        let k = choose|k: int|
                            0 <= k < missing@.len() && missing@[k] == PieceIndex { value: i };
                        assert(requests@[k].piece_index.value == i);
                    }
                }
                RepairAction::Fill(requests)
            },
            RepairStage::Search(search) => RepairAction::Search(search.request()),
            RepairStage::Pause => RepairAction::Pause(SEARCH_INTERVAL_SECONDS),
        }
    }

    /// How to go on after `event`, if pieces past the cached ones are left alone or not.
    pub fn advance(
        self,
        cache: &MyPieceCache,
        disable_detect_future_piece: bool,
        event: RepairEvent,
    ) -> (r: RepairStage)
        requires
            event is History ==> event->History_0 > 0,
            self is Fill && !disable_detect_future_piece ==> !cache@.contains(u64::MAX),
            self is Search && event == RepairEvent::Searched(SearchEvent::Saved)
                ==> self->Search_0.next_piece_index.value < u64::MAX,
        ensures
            exists|greatest: u64| #[trigger]
                is_greatest(cache@, greatest) && r == repair_after(
                    self,
                    greatest,
                    disable_detect_future_piece,
                    event,
                ),
            self is AskNode && event is History ==> r == RepairStage::Fill(
                SegmentIndex { value: (event->History_0 - 1) as u64 },
            ),
            self is AskNode && !(event is History) ==> r is Pause,
            self is Fill && disable_detect_future_piece ==> r is Pause,
            self is Fill && !disable_detect_future_piece
            ==> r is Search && (forall|i: u64| #[trigger]
                cache@.contains(i) ==> i < r->Search_0.next_piece_index.value) && (
            r->Search_0.next_piece_index.value == 1 || (r->Search_0.next_piece_index.value > 1
                && cache@.contains((r->Search_0.next_piece_index.value - 1) as u64))),
            self is Search && event == RepairEvent::Searched(SearchEvent::NotSent) ==> r == self,
            self is Search && event == RepairEvent::Searched(SearchEvent::Saved) ==> r is Search
                && r->Search_0.next_piece_index.value == self->Search_0.next_piece_index.value + 1,
            self is Search && event != RepairEvent::Searched(SearchEvent::NotSent) && event
                != RepairEvent::Searched(SearchEvent::Saved) ==> r is Pause,
            self is Pause ==> r is AskNode,
    {
        let greatest = cache.max_piece_index();
        assert(is_greatest(cache@, greatest.value));
        match self {
            RepairStage::AskNode => match event {
                RepairEvent::History(history_size) => RepairStage::Fill(
                    SegmentIndex::last_of_history(history_size),
                ),
                _ => RepairStage::Pause,
            },
            RepairStage::Fill(_) => match FuturePieceSearch::start(
                cache,
                disable_detect_future_piece,
            ) {
                Some(search) => {
                    proof {
                        law_greatest_is_one(
                            cache@,
                            greatest.value,
                            (search.next_piece_index.value - 1) as u64,
                        );
                    }
                    RepairStage::Search(search)
                },
                None => RepairStage::Pause,
            },
            RepairStage::Search(search) => match event {
                RepairEvent::Searched(event) => match search.advance(event) {
                    Some(search) => RepairStage::Search(search),
                    None => RepairStage::Pause,
                },
                _ => RepairStage::Pause,
            },
            RepairStage::Pause => RepairStage::AskNode,
        }
    }
}

/// There is only one greatest piece.
pub proof fn law_greatest_is_one(pieces: Set<u64>, a: u64, b: u64)
    requires
        is_greatest(pieces, a),
        is_greatest(pieces, b),
    ensures
        a == b,
{
}

/// What is missing, its order included, is a matter of what is held and of how much there is.
pub proof fn law_missing_is_one(
    pieces: Set<u64>,
    count: int,
    a: Seq<PieceIndex>,
    b: Seq<PieceIndex>,
)
    requires
        is_missing(pieces, count, a),
        is_missing(pieces, count, b),
    ensures
        a == b,
{
    lemma_same_prefix(pieces, count, a, b, a.len() as int);
    lemma_same_prefix(pieces, count, b, a, b.len() as int);
    assert(a =~= b);
}

proof fn lemma_same_prefix(
    pieces: Set<u64>,
    count: int,
    a: Seq<PieceIndex>,
    b: Seq<PieceIndex>,
    n: int,
)
    requires
        is_missing(pieces, count, a),
        is_missing(pieces, count, b),
        0 <= n <= a.len(),
    ensures
        n <= b.len(),
        forall|k: int| 0 <= k < n ==> #[trigger] a[k] == b[k],
    decreases n,
{
    if n > 0 {
        let m = n - 1;
        lemma_same_prefix(pieces, count, a, b, m);
        let x = a[m].value;
        assert(!pieces.contains(x));
        assert(b.contains(PieceIndex { value: x }));
        let l = choose|l: int| 0 <= l < b.len() && b[l] == PieceIndex { value: x };
        if l < m {
            assert(a[l] == b[l]);
            assert(a[l].value > a[m].value);
        }
        let y = b[m].value;
        assert(!pieces.contains(y));
        assert(a.contains(PieceIndex { value: y }));
        let k = choose|k: int| 0 <= k < a.len() && a[k] == PieceIndex { value: y };
        if k < m {
            assert(a[k] == b[k]);
            assert(b[k].value > b[m].value);
        }
        if l > m {
            assert(b[m].value > b[l].value);
            if k > m {
                assert(a[m].value > a[k].value);
            }
        }
        assert(a[m] == b[m]);
    }
}

/// Once every missing piece was saved, the cache holds every piece there is; and none is asked for
/// that it held before.
pub proof fn law_missing_pieces_complete_the_cache(
    pieces: Set<u64>,
    count: int,
    missing: Seq<PieceIndex>,
    later: Set<u64>,
)
    requires
        is_missing(pieces, count, missing),
        pieces.subset_of(later),
        forall|k: int| 0 <= k < missing.len() ==> later.contains((#[trigger] missing[k]).value),
    ensures
        forall|i: u64| i < count ==> #[trigger] later.contains(i),
        forall|k: int| 0 <= k < missing.len() ==> !pieces.contains((#[trigger] missing[k]).value),
        is_missing(later, count, seq![]),
{
    assert forall|i: u64| i < count implies #[trigger] later.contains(i) by {
        if !pieces.contains(i) {
            assert(missing.contains(PieceIndex { value: i }));
            let k = choose|k: int| 0 <= k < missing.len() && missing[k] == PieceIndex { value: i };
            assert(later.contains(missing[k].value));
        }
    }
}

/// The search never asks for a piece that the cache held when it started.
pub proof fn law_search_starts_past_the_cache(pieces: Set<u64>, greatest: u64, next: u64)
    requires
        is_greatest(pieces, greatest),
        next > greatest,
    ensures
        !pieces.contains(next),
{
}

/// How far a search has got after `events`, if it still goes on.
pub open spec fn search_after_all(
    search: FuturePieceSearch,
    events: Seq<SearchEvent>,
) -> Option<FuturePieceSearch>
    decreases events.len(),
{
    if events.len() == 0 {
        Some(search)
    } else {
        match search_after_all(search, events.drop_last()) {
            Some(search) => search_after(search, events.last()),
            None => None,
        }
    }
}

/// How many of `events` tell of a piece that was saved.
pub open spec fn saved_among(events: Seq<SearchEvent>) -> nat {
    events.filter(|e: SearchEvent| e is Saved).len()
}

/// The search leaves no gap: for as long as it goes on, the piece that it asks for next is as far
/// from the first one as pieces were saved.
pub proof fn law_search_leaves_no_gap(search: FuturePieceSearch, events: Seq<SearchEvent>)
    requires
        search.next_piece_index.value + events.len() <= u64::MAX,
        search_after_all(search, events) is Some,
    ensures
        search_after_all(search, events)->0.next_piece_index.value
            == search.next_piece_index.value + saved_among(events),
        saved_among(events) <= events.len(),
    decreases events.len(),
{
    reveal(Seq::filter);
    if events.len() > 0 {
        law_search_leaves_no_gap(search, events.drop_last());
    }
}

/// The search ends with the first piece that is not found.
pub proof fn law_search_ends(search: FuturePieceSearch, events: Seq<SearchEvent>, k: int)
    requires
        0 <= k < events.len(),
        events[k] is NotFound || events[k] is NoAnswer,
    ensures
        search_after_all(search, events) is None,
    decreases events.len(),
{
    if k < events.len() - 1 {
        assert(events.drop_last()[k] == events[k]);
        law_search_ends(search, events.drop_last(), k);
    }
}

/// The search goes on after a download exactly if that download saved the piece.
pub proof fn law_search_goes_on_with_saved_pieces(
    search: FuturePieceSearch,
    http_server: Option<Seq<char>>,
    events: Seq<Event>,
)
    requires
        after_events(
            download_started(search_request(search.next_piece_index), http_server),
            events,
        ).task() is None,
    ensures
        ({
            let start = download_started(search_request(search.next_piece_index), http_server);
            let answer = answer_of(after_events(start, events));
            search_after(search, event_of(answer)) is Some <==> was_saved(start, events)
        }),
{
    let request = search_request(search.next_piece_index);
    law_answer_tells_whether_saved(request, http_server, events);
    lemma_request_stays(download_started(request, http_server), events);
}

/// A round of repairs that is told of no history asks for nothing: it waits for the next round.
pub proof fn law_no_history_no_requests(greatest: u64, disabled: bool)
    ensures
        repair_after(RepairStage::AskNode, greatest, disabled, RepairEvent::NoHistory)
            == RepairStage::Pause,
        forall|event: RepairEvent| #[trigger]
            repair_after(RepairStage::Pause, greatest, disabled, event) == RepairStage::AskNode,
{
}

/// A round that is told of a history of `n` segments, whatever is cached and whether or not pieces
/// past the cached ones are left alone, goes on to ask for every piece of those segments that is
/// not held, and for no other.
pub proof fn law_known_history_is_filled(
    n: u64,
    greatest: u64,
    disabled: bool,
    pieces: Set<u64>,
    requests: Seq<DownloadRequest>,
    stage: RepairStage,
)
    requires
        n > 0,
        stage == repair_after(RepairStage::AskNode, greatest, disabled, RepairEvent::History(n)),
        stage is Fill ==> fills(pieces, stage->Fill_0.value, requests),
    ensures
        stage == RepairStage::Fill(SegmentIndex { value: (n - 1) as u64 }),
        forall|i: u64|
            i < n * PIECES_PER_SEGMENT && !(#[trigger] pieces.contains(i)) ==> exists|k: int|
                0 <= k < requests.len() && (#[trigger] requests[k]).piece_index.value == i
                    && !requests[k].only_l1,
        forall|k: int|
            0 <= k < requests.len() ==> (#[trigger] requests[k]).piece_index.value < n
                * PIECES_PER_SEGMENT && !pieces.contains(requests[k].piece_index.value),
{
    assert forall|i: u64|
        i < n * PIECES_PER_SEGMENT && !(#[trigger] pieces.contains(i)) implies exists|k: int|
        0 <= k < requests.len() && (#[trigger] requests[k]).piece_index.value == i
            && !requests[k].only_l1 by {
        assert(names_piece(requests, i));
    }
}

/// A longer history never asks for less: what is asked for up to the end of one segment is asked
/// for up to the end of every later one.
pub proof fn law_longer_history_asks_for_more(
    pieces: Set<u64>,
    a: u64,
    b: u64,
    fewer: Seq<DownloadRequest>,
    more: Seq<DownloadRequest>,
    k: int,
)
    requires
        a <= b,
        fills(pieces, a, fewer),
        fills(pieces, b, more),
        0 <= k < fewer.len(),
    ensures
        names_piece(more, fewer[k].piece_index.value),
{
    let i = fewer[k].piece_index.value;
    assert(!pieces.contains(i));
}

/// After the history was filled, the search begins right behind the greatest cached piece, unless
/// it is disabled; it goes on as long as pieces are saved, stays where it is when a request could
/// not be handed over, and ends otherwise; and every round ends with a pause, after which the node
/// is asked again.
pub proof fn law_rounds_follow_the_events(
    last_segment: SegmentIndex,
    search: FuturePieceSearch,
    greatest: u64,
    disabled: bool,
    event: RepairEvent,
)
    ensures
        !(event is History) ==> repair_after(RepairStage::AskNode, greatest, disabled, event)
            is Pause,
        disabled ==> repair_after(RepairStage::Fill(last_segment), greatest, disabled, event)
            is Pause,
        !disabled && greatest < u64::MAX ==> repair_after(
            RepairStage::Fill(last_segment),
            greatest,
            disabled,
            event,
        ) is Search && repair_after(
            RepairStage::Fill(last_segment),
            greatest,
            disabled,
            event,
        )->Search_0.next_piece_index.value == greatest + 1,
        event == RepairEvent::Searched(SearchEvent::NotSent) ==> repair_after(
            RepairStage::Search(search),
            greatest,
            disabled,
            event,
        ) == RepairStage::Search(search),
        event == RepairEvent::Searched(SearchEvent::Saved) && search.next_piece_index.value
            < u64::MAX ==> repair_after(RepairStage::Search(search), greatest, disabled, event)
            is Search && repair_after(
            RepairStage::Search(search),
            greatest,
            disabled,
            event,
        )->Search_0.next_piece_index.value == search.next_piece_index.value + 1,
        event != RepairEvent::Searched(SearchEvent::NotSent) && event != RepairEvent::Searched(
            SearchEvent::Saved,
        ) ==> repair_after(RepairStage::Search(search), greatest, disabled, event) is Pause,
        repair_after(RepairStage::Pause, greatest, disabled, event) is AskNode,
{
}

/// A piece that there is counts as missing exactly if it is not held, and what is missing comes
/// latest first.
pub proof fn law_missing_is_what_is_not_held(
    pieces: Set<u64>,
    count: int,
    missing: Seq<PieceIndex>,
    i: u64,
    k: int,
    l: int,
)
    requires
        is_missing(pieces, count, missing),
    ensures
        missing.contains(PieceIndex { value: i }) <==> i < count && !pieces.contains(i),
        0 <= k < l < missing.len() ==> missing[k].value > missing[l].value,
{
    if missing.contains(PieceIndex { value: i }) {
        let j = choose|j: int| 0 <= j < missing.len() && missing[j] == PieceIndex { value: i };
        assert(missing[j].value < count);
    }
}

/// A newly archived segment is asked for whole: each of its pieces, and no other, from every
/// source.
pub proof fn law_new_segment_is_asked_for_whole(
    segment: u64,
    requests: Seq<DownloadRequest>,
    index: u64,
)
    requires
        asks_for_segment(segment, requests),
        segment * 256 + 255 <= u64::MAX,
    ensures
        names_piece(requests, index) <==> index / 256 == segment,
        requests.len() == 256,
{
    if index / 256 == segment {
        let k = index - segment * 256;
        assert(requests[k].piece_index.value == index);
    }
    if names_piece(requests, index) {
        let k = choose|k: int|
            0 <= k < requests.len() && (#[trigger] requests[k]).piece_index.value == index
                && !requests[k].only_l1 && !requests[k].wants_answer;
        assert(requests[k] == plain_request((first_piece_of(segment) + k) as u64));
    }
}

/// A request asks for the piece that it was made for: from every source, with nobody waiting, or
/// archival storage left alone, with an answer.
pub proof fn law_requests_ask_for_their_piece(index: u64)
    ensures
        plain_request(index).piece_index.value == index,
        !plain_request(index).only_l1 && !plain_request(index).wants_answer,
        search_request(PieceIndex { value: index }).piece_index.value == index,
        search_request(PieceIndex { value: index }).only_l1,
        search_request(PieceIndex { value: index }).wants_answer,
{
}

/// The search takes up the next piece exactly if this one was saved, and the same one again exactly
/// if the request could not be handed over; an answer tells whether the piece was saved.
pub proof fn law_search_goes_step_by_step(search: FuturePieceSearch, event: SearchEvent)
    requires
        search.next_piece_index.value < u64::MAX,
    ensures
        event is Saved <==> search_after(search, event) is Some && search_after(
            search,
            event,
        )->0.next_piece_index.value == search.next_piece_index.value + 1,
        event is NotSent <==> search_after(search, event) == Some(search),
        event is NotFound || event is NoAnswer <==> search_after(search, event) is None,
        event_of(Some(true)) is Saved,
        event_of(Some(false)) is NotFound,
        event_of(None) is NoAnswer,
{
}

} // verus!
