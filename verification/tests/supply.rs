//! Downloads, and which pieces are asked for.

use piece_cache::cache::MyPieceCache;
use piece_cache::disk::{DiskAction, DiskReply};
use piece_cache::download::{
    Download, DownloadAction, DownloadEvent, DownloadRequest, ARCHIVAL_STORAGE_ROUNDS,
    REQUEST_QUEUE_LENGTH,
};
use piece_cache::primitives::{Piece, PieceIndex, SegmentIndex, PIECE_SIZE};
use piece_cache::sync::{
    missing_piece_requests, missing_pieces, new_segment_requests, request_piece, search_event,
    FuturePieceSearch, RepairAction, RepairEvent, RepairStage, SearchEvent, WatchEvent, WatchStage,
};

fn piece() -> Piece {
    Piece::try_from(vec![3; PIECE_SIZE]).unwrap()
}

fn cache_of(indexes: &[u64]) -> MyPieceCache {
    let mut cache = MyPieceCache::new();
    for index in indexes {
        let mut save = cache.save_piece(PieceIndex::from(*index), piece());
        while let Some(action) = save.action() {
            let reply = match action {
                DiskAction::DirExists(_) | DiskAction::FileExists(_) => DiskReply::Answer(true),
                _ => DiskReply::Done,
            };
            save = save.advance(reply);
        }
        assert!(cache.finish_save(save));
    }
    cache
}

fn request(index: u64, only_l1: bool, wants_answer: bool) -> DownloadRequest {
    DownloadRequest { piece_index: PieceIndex::from(index), only_l1, wants_answer }
}

fn start(request: DownloadRequest, server: Option<&str>) -> Download {
    let cache = MyPieceCache::new();
    Download::start(&cache, request, server.map(str::to_string)).unwrap()
}

fn values(indexes: &[PieceIndex]) -> Vec<u64> {
    indexes.iter().map(|i| i.value).collect()
}

#[test]
fn a_cached_piece_is_not_downloaded() {
    let cache = cache_of(&[7]);
    assert!(Download::start(&cache, request(7, false, true), None).is_none());
    assert!(Download::start(&cache, request(8, false, true), None).is_some());
}

#[test]
fn sources_are_asked_one_after_another() {
    let download = start(request(300, false, true), Some("http://server/"));
    match download.action() {
        Some(DownloadAction::AskServer(url)) => assert_eq!(url, "http://server/1/300"),
        _ => panic!("the server comes first"),
    }
    let download = download.advance(DownloadEvent::Nothing);
    assert!(matches!(download.action(), Some(DownloadAction::AskCaches(i)) if i.value == 300));
    let download = download.advance(DownloadEvent::Nothing);
    assert!(matches!(
        download.action(),
        Some(DownloadAction::AskArchivalStorage(i, 15)) if i.value == 300
    ));
    let download = download.advance(DownloadEvent::Nothing);
    assert!(download.action().is_none());
    assert!(!download.is_fault());
    assert_eq!(download.answer(), Some(false));
    assert_eq!(ARCHIVAL_STORAGE_ROUNDS, 15);
    assert_eq!(REQUEST_QUEUE_LENGTH, 50);
}

#[test]
fn without_a_server_the_caches_come_first() {
    let download = start(request(1, false, false), None);
    assert!(matches!(download.action(), Some(DownloadAction::AskCaches(_))));
}

#[test]
fn a_body_of_a_wrong_length_is_passed_over() {
    for length in [0, PIECE_SIZE - 1, PIECE_SIZE + 1] {
        let download = start(request(1, false, true), Some("http://server/"));
        let download = download.advance(DownloadEvent::Body(vec![0; length]));
        assert!(matches!(download.action(), Some(DownloadAction::AskCaches(_))));
    }
}

#[test]
fn a_found_piece_is_saved_and_answered() {
    let download = start(request(1, false, true), Some("http://server/"));
    let download = download.advance(DownloadEvent::Body(vec![3; PIECE_SIZE]));
    match download.action() {
        Some(DownloadAction::Save(index, piece)) => {
            assert_eq!(index.value, 1);
            assert_eq!(piece.into_bytes(), vec![3; PIECE_SIZE]);
        }
        _ => panic!("the piece is there"),
    }
    let download = download.advance(DownloadEvent::Saved);
    assert!(download.action().is_none());
    assert_eq!(download.answer(), Some(true));

    let download = start(request(1, true, true), None);
    let download = download.advance(DownloadEvent::Found(piece())).advance(DownloadEvent::Saved);
    assert_eq!(download.answer(), Some(true));

    let download = start(request(1, false, true), None).advance(DownloadEvent::Nothing);
    let download = download.advance(DownloadEvent::Found(piece())).advance(DownloadEvent::Saved);
    assert_eq!(download.answer(), Some(true));
}

#[test]
fn archival_storage_is_left_alone_if_asked_for() {
    let download = start(request(1, true, true), Some("http://server/"));
    let download = download.advance(DownloadEvent::Nothing).advance(DownloadEvent::Nothing);
    assert!(download.action().is_none());
    assert_eq!(download.answer(), Some(false));
}

#[test]
fn nobody_is_answered_who_does_not_wait() {
    let download = start(request(1, true, false), None).advance(DownloadEvent::Nothing);
    assert_eq!(download.answer(), None);
}

#[test]
fn a_piece_that_cannot_be_saved_is_a_fault() {
    let download = start(request(1, true, true), None);
    let download = download.advance(DownloadEvent::Found(piece())).advance(DownloadEvent::NotSaved);
    assert!(download.action().is_none());
    assert!(download.is_fault());
    assert_eq!(download.answer(), None);
}

#[test]
fn downloads_end_after_four_events() {
    let download = start(request(1, false, true), Some("http://server/"))
        .advance(DownloadEvent::Nothing)
        .advance(DownloadEvent::Nothing)
        .advance(DownloadEvent::Found(piece()));
    assert!(download.action().is_some());
    assert!(download.advance(DownloadEvent::Saved).action().is_none());
}

#[test]
fn a_new_segment_is_asked_for_in_full() {
    let requests = new_segment_requests(SegmentIndex::from(2));
    assert_eq!(requests.len(), 256);
    for (i, asked) in requests.iter().enumerate() {
        assert_eq!(*asked, request(512 + i as u64, false, false));
    }
    assert_eq!(request_piece(PieceIndex::from(4)), request(4, false, false));
}

#[test]
fn missing_pieces_come_latest_first() {
    let cache = cache_of(&[0, 3, 254, 255, 256, 1000]);
    let missing = missing_pieces(&cache, SegmentIndex::from(0));
    let expected: Vec<u64> = (0..256).rev().filter(|i| ![0, 3, 254, 255].contains(i)).collect();
    assert_eq!(values(&missing), expected);
    let requests = missing_piece_requests(&missing);
    assert_eq!(requests.len(), 252);
    assert_eq!(requests[0], request(253, false, false));
    assert_eq!(requests[251], request(1, false, false));
}

#[test]
fn nothing_is_missing_from_a_full_cache() {
    let all: Vec<u64> = (0..256).collect();
    assert!(missing_pieces(&cache_of(&all), SegmentIndex::from(0)).is_empty());
    assert_eq!(missing_pieces(&cache_of(&all), SegmentIndex::from(1)).len(), 256);
}

#[test]
fn the_search_starts_past_the_cache() {
    assert!(FuturePieceSearch::start(&cache_of(&[4, 9, 2]), true).is_none());
    let search = FuturePieceSearch::start(&cache_of(&[4, 9, 2]), false).unwrap();
    assert_eq!(search.request(), request(10, true, true));
    let search = FuturePieceSearch::start(&MyPieceCache::new(), false).unwrap();
    assert_eq!(search.next_piece_index.value, 1);
}

#[test]
fn the_search_goes_on_with_what_it_finds() {
    let search = FuturePieceSearch { next_piece_index: PieceIndex::from(10) };
    assert_eq!(search.advance(SearchEvent::NotSent), Some(search));
    let next = search.advance(SearchEvent::Saved).unwrap();
    assert_eq!(next.next_piece_index.value, 11);
    assert_eq!(search.advance(SearchEvent::NotFound), None);
    assert_eq!(search.advance(SearchEvent::NoAnswer), None);
    assert_eq!(search_event(Some(true)), SearchEvent::Saved);
    assert_eq!(search_event(Some(false)), SearchEvent::NotFound);
    assert_eq!(search_event(None), SearchEvent::NoAnswer);
}

#[test]
fn the_watch_subscribes_once() {
    let step = WatchStage::Subscribe.advance(WatchEvent::NotSubscribed);
    assert_eq!((step.stage, step.pause_seconds), (WatchStage::Subscribe, 5));
    assert!(step.requests.is_empty());
    let step = WatchStage::Subscribe.advance(WatchEvent::Subscribed);
    assert_eq!((step.stage, step.pause_seconds), (WatchStage::Watch, 0));
    let step = WatchStage::Watch.advance(WatchEvent::Archived(SegmentIndex::from(1)));
    assert_eq!((step.stage, step.pause_seconds), (WatchStage::Watch, 0));
    assert_eq!(step.requests.len(), 256);
    assert_eq!(step.requests[0], request(256, false, false));
    let step = WatchStage::Watch.advance(WatchEvent::Silence);
    assert_eq!((step.stage, step.pause_seconds), (WatchStage::Watch, 5));
    assert!(step.requests.is_empty());
}

#[test]
fn a_round_of_repairs_fills_searches_and_pauses() {
    let cache = cache_of(&[0, 255]);
    let stage = RepairStage::AskNode;
    assert!(matches!(stage.action(&cache), RepairAction::AskNode));
    let stage = stage.advance(&cache, false, RepairEvent::History(1));
    match stage.action(&cache) {
        RepairAction::Fill(requests) => {
            assert_eq!(requests.len(), 254);
            assert_eq!(requests[0], request(254, false, false));
        }
        _ => panic!("there is something to fill"),
    }
    let stage = stage.advance(&cache, false, RepairEvent::Filled);
    assert!(matches!(
        stage.action(&cache),
        RepairAction::Search(r) if r == request(256, true, true)
    ));
    let stage = stage.advance(&cache, false, RepairEvent::Searched(SearchEvent::Saved));
    assert!(matches!(
        stage.action(&cache),
        RepairAction::Search(r) if r == request(257, true, true)
    ));
    let stage = stage.advance(&cache, false, RepairEvent::Searched(SearchEvent::NotFound));
    assert!(matches!(stage.action(&cache), RepairAction::Pause(120)));
    assert_eq!(stage.advance(&cache, false, RepairEvent::Paused), RepairStage::AskNode);
}

#[test]
fn a_round_of_repairs_without_search() {
    let cache = cache_of(&[0]);
    let stage = RepairStage::AskNode.advance(&cache, true, RepairEvent::History(3));
    assert_eq!(stage, RepairStage::Fill(SegmentIndex::from(2)));
    assert_eq!(stage.advance(&cache, true, RepairEvent::Filled), RepairStage::Pause);
    let stage = RepairStage::AskNode.advance(&cache, false, RepairEvent::NoHistory);
    assert_eq!(stage, RepairStage::Pause);
}

#[test]
fn saving_what_is_missing_completes_the_cache() {
    let held = [1, 100, 255];
    let missing = missing_pieces(&cache_of(&held), SegmentIndex::from(0));
    let mut all = held.to_vec();
    all.extend(values(&missing));
    assert_eq!(all.len(), 256);
    assert!(missing_pieces(&cache_of(&all), SegmentIndex::from(0)).is_empty());
}

#[test]
fn the_search_leaves_no_gap() {
    let mut search = FuturePieceSearch { next_piece_index: PieceIndex::from(5) };
    let events = [
        SearchEvent::Saved,
        SearchEvent::NotSent,
        SearchEvent::Saved,
        SearchEvent::NotSent,
        SearchEvent::Saved,
    ];
    for event in events {
        search = search.advance(event).unwrap();
    }
    assert_eq!(search.request(), request(8, true, true));
}
