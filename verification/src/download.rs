//! Downloading a piece: which sources are asked, in which order, and what the one who asked for it
//! is told.

use crate::cache::MyPieceCache;
use crate::paths::{piece_url, piece_url_text};
use crate::primitives::{Piece, PieceIndex, PIECE_SIZE};
use vstd::prelude::*;

verus! {

/// How many random walks are made through archival storage in search of a piece.
pub const ARCHIVAL_STORAGE_ROUNDS: usize = 15;

/// How many requests for pieces can wait.
pub const REQUEST_QUEUE_LENGTH: usize = 50;

/// A piece that someone asks for.
#[derive(Clone, Copy, Debug, PartialEq, Eq, Structural)]
pub struct DownloadRequest {
    /// Which piece.
    pub piece_index: PieceIndex,
    /// Whether archival storage is left alone.
    pub only_l1: bool,
    /// Whether the one who asks waits for an answer.
    pub wants_answer: bool,
}

/// What happened to what was to be done.
pub enum DownloadEvent {
    /// The server sent this.
    Body(Vec<u8>),
    /// The network had the piece.
    Found(Piece),
    /// The server or the network had nothing, or could not be asked.
    Nothing,
    /// The piece was saved.
    Saved,
    /// The piece was not saved.
    NotSaved,
}

/// What happened, over the bytes that came with it.
pub enum Event {
    Body(Seq<u8>),
    Found(Seq<u8>),
    Nothing,
    Saved,
    NotSaved,
}

impl View for DownloadEvent {
    type V = Event;

    open spec fn view(&self) -> Event {
        match *self {
            DownloadEvent::Body(body) => Event::Body(body@),
            DownloadEvent::Found(piece) => Event::Found(piece@),
            DownloadEvent::Nothing => Event::Nothing,
            DownloadEvent::Saved => Event::Saved,
            DownloadEvent::NotSaved => Event::NotSaved,
        }
    }
}

/// What is to be done next.
pub enum DownloadAction {
    /// Get this address from the server.
    AskServer(String),
    /// Ask the network's caches for the piece.
    AskCaches(PieceIndex),
    /// Ask the network's archival storage for the piece, with this many walks.
    AskArchivalStorage(PieceIndex, usize),
    /// Save the piece.
    Save(PieceIndex, Piece),
}

/// What is to be done, over the contents of its parts.
pub enum Task {
    AskServer(Seq<char>),
    AskCaches(u64),
    AskArchivalStorage(u64, usize),
    Save(u64, Seq<u8>),
}

impl View for DownloadAction {
    type V = Task;

    open spec fn view(&self) -> Task {
        match *self {
            DownloadAction::AskServer(url) => Task::AskServer(url@),
            DownloadAction::AskCaches(index) => Task::AskCaches(index.value),
            DownloadAction::AskArchivalStorage(index, rounds) => Task::AskArchivalStorage(
                index.value,
                rounds,
            ),
            DownloadAction::Save(index, piece) => Task::Save(index.value, piece@),
        }
    }
}

/// How far a download has got.
enum DownloadStage {
    AskServer,
    AskCaches,
    AskArchivalStorage,
    Save(Piece),
    Over(bool),
    Fault,
}

/// A download.
pub struct Download {
    request: DownloadRequest,
    http_server: Option<String>,
    stage: DownloadStage,
}

/// How far a download has got: what is to be done next, or how it ended.
pub enum DownloadStep {
    /// Ask the server.
    AskServer,
    /// Ask the network's caches.
    AskCaches,
    /// Ask the network's archival storage.
    AskArchivalStorage,
    /// Save this piece.
    Save(Seq<u8>),
    /// The piece was saved, or no source had it.
    Over(bool),
    /// A piece was there but could not be saved.
    Fault,
}

/// A download: what was asked for, the server that is asked first, and how far it has got.
pub struct Downloading {
    pub request: DownloadRequest,
    pub http_server: Option<Seq<char>>,
    pub step: DownloadStep,
}

/// The characters of a text that may be missing.
pub open spec fn text_of(s: Option<String>) -> Option<Seq<char>> {
    match s {
        Some(s) => Some(s@),
        None => None,
    }
}

impl View for Download {
    type V = Downloading;

    closed spec fn view(&self) -> Downloading {
        Downloading {
            request: self.request,
            http_server: text_of(self.http_server),
            step: match self.stage {
                DownloadStage::AskServer => DownloadStep::AskServer,
                DownloadStage::AskCaches => DownloadStep::AskCaches,
                DownloadStage::AskArchivalStorage => DownloadStep::AskArchivalStorage,
                DownloadStage::Save(piece) => DownloadStep::Save(piece@),
                DownloadStage::Over(saved) => DownloadStep::Over(saved),
                DownloadStage::Fault => DownloadStep::Fault,
            },
        }
    }
}

impl Downloading {
    /// What is to be done next.
    pub open spec fn task(self) -> Option<Task> {
        let index = self.request.piece_index.value;
        match self.step {
            DownloadStep::AskServer => Some(
                Task::AskServer(piece_url_text(self.http_server->0, index)),
            ),
            DownloadStep::AskCaches => Some(Task::AskCaches(index)),
            DownloadStep::AskArchivalStorage => Some(
                Task::AskArchivalStorage(index, ARCHIVAL_STORAGE_ROUNDS),
            ),
            DownloadStep::Save(piece) => Some(Task::Save(index, piece)),
            DownloadStep::Over(_) => None,
            DownloadStep::Fault => None,
        }
    }

    /// How the download goes on after `event`: with the next source for as long as none has the
    /// piece, and with saving once one has. What the server sends counts only if it is as long as
    /// a piece, and archival storage is left alone where that was asked for.
    pub open spec fn next(self, event: Event) -> Downloading {
        let step = match self.step {
            DownloadStep::AskServer => match event {
                Event::Body(body) => if body.len() == PIECE_SIZE {
                    DownloadStep::Save(body)
                } else {
                    DownloadStep::AskCaches
                },
                _ => DownloadStep::AskCaches,
            },
            DownloadStep::AskCaches => match event {
                Event::Found(piece) => DownloadStep::Save(piece),
                _ => if self.request.only_l1 {
                    DownloadStep::Over(false)
                } else {
                    DownloadStep::AskArchivalStorage
                },
            },
            DownloadStep::AskArchivalStorage => match event {
                Event::Found(piece) => DownloadStep::Save(piece),
                _ => DownloadStep::Over(false),
            },
            DownloadStep::Save(_) => match event {
                Event::Saved => DownloadStep::Over(true),
                _ => DownloadStep::Fault,
            },
            DownloadStep::Over(_) => self.step,
            DownloadStep::Fault => self.step,
        };
        Downloading { step, ..self }
    }
}

/// A download before anything was done: it starts with the server if there is one, and otherwise
/// with the network's caches.
pub open spec fn download_started(
    request: DownloadRequest,
    http_server: Option<Seq<char>>,
) -> Downloading {
    let step = if http_server is Some {
        DownloadStep::AskServer
    } else {
        DownloadStep::AskCaches
    };
    Downloading { request, http_server, step }
}

impl Download {
    /// The server is asked only if there is one.
    #[verifier::type_invariant]
    spec fn well_formed(self) -> bool {
        self.stage is AskServer ==> self.http_server is Some
    }

    /// Starts the download of a piece that is asked for, unless the cache holds it: then the
    /// request is dropped without an answer.
    pub fn start(
        cache: &MyPieceCache,
        request: DownloadRequest,
        http_server: Option<String>,
    ) -> (r: Option<Download>)
        ensures
            r is None <==> cache@.contains(request.piece_index.value),
            r is Some ==> r->0@ == download_started(request, text_of(http_server)),
            r is Some ==> r->0@.request == request,
            r is Some && http_server is Some ==> r->0@.task() == Some(
                Task::AskServer(piece_url_text(http_server->0@, request.piece_index.value)),
            ),
            r is Some && http_server is None ==> r->0@.task() == Some(
                Task::AskCaches(request.piece_index.value),
            ),
    {
        if cache.has_piece(&request.piece_index) {
            return None;
        }
        let stage = if http_server.is_some() {
            DownloadStage::AskServer
        } else {
            DownloadStage::AskCaches
        };
        Some(Download { request, http_server, stage })
    }

    /// What to do next; nothing once the download is over.
    pub fn action(&self) -> (r: Option<DownloadAction>)
        ensures
            r is Some <==> self@.task() is Some,
            r is Some ==> r->0@ == self@.task()->0,
            self@.step is Save ==> r is Some && r->0 is Save && r->0->Save_1@ == self@.step->Save_0
                && r->0->Save_0 == self@.request.piece_index,
            self@.step is AskCaches ==> r == Some(
                DownloadAction::AskCaches(self@.request.piece_index),
            ),
            self@.step is AskArchivalStorage ==> r == Some(
                DownloadAction::AskArchivalStorage(self@.request.piece_index, 15),
            ),
            self@.step is AskServer ==> r is Some && r->0 is AskServer,
            self@.step is Over || self@.step is Fault ==> r is None,
    {
        proof {
            use_type_invariant(self);
        }
        let index = self.request.piece_index;
        match &self.stage {
            DownloadStage::AskServer => match &self.http_server {
                Some(http_server) => Some(
                    DownloadAction::AskServer(piece_url(http_server.as_str(), index)),
                ),
                None => None,
            },
            DownloadStage::AskCaches => Some(DownloadAction::AskCaches(index)),
            DownloadStage::AskArchivalStorage => Some(
                DownloadAction::AskArchivalStorage(index, ARCHIVAL_STORAGE_ROUNDS),
            ),
            DownloadStage::Save(piece) => Some(DownloadAction::Save(index, piece.clone())),
            DownloadStage::Over(_) => None,
            DownloadStage::Fault => None,
        }
    }

    /// Goes on after what was to be done.
    pub fn advance(self, event: DownloadEvent) -> (r: Download)
        ensures
            r@ == self@.next(event@),
            r@.request == self@.request,
            self@.step is AskServer && event is Body && event->Body_0@.len() == PIECE_SIZE
                ==> r@.step == DownloadStep::Save(event->Body_0@),
            self@.step is AskServer && !(event is Body && event->Body_0@.len() == PIECE_SIZE)
                ==> r@.step is AskCaches,
            (self@.step is AskCaches || self@.step is AskArchivalStorage) && event is Found
                ==> r@.step == DownloadStep::Save(event->Found_0@),
            self@.step is AskCaches && !(event is Found) && self@.request.only_l1 ==> r@.step
                == DownloadStep::Over(false),
            self@.step is AskCaches && !(event is Found) && !self@.request.only_l1
                ==> r@.step is AskArchivalStorage,
            self@.step is AskArchivalStorage && !(event is Found) ==> r@.step
                == DownloadStep::Over(false),
            self@.step is Save && event is Saved ==> r@.step == DownloadStep::Over(true),
            self@.step is Save && !(event is Saved) ==> r@.step is Fault,
            self@.step is Over || self@.step is Fault ==> r@ == self@,
    {
        let request = self.request;
        let stage = match self.stage {
            DownloadStage::AskServer => match event {
                DownloadEvent::Body(body) => match Piece::try_from(body) {
                    Some(piece) => DownloadStage::Save(piece),
                    None => DownloadStage::AskCaches,
                },
                _ => DownloadStage::AskCaches,
            },
            DownloadStage::AskCaches => match event {
                DownloadEvent::Found(piece) => DownloadStage::Save(piece),
                _ => if request.only_l1 {
                    DownloadStage::Over(false)
                } else {
                    DownloadStage::AskArchivalStorage
                },
            },
            DownloadStage::AskArchivalStorage => match event {
                DownloadEvent::Found(piece) => DownloadStage::Save(piece),
                _ => DownloadStage::Over(false),
            },
            DownloadStage::Save(_) => match event {
                DownloadEvent::Saved => DownloadStage::Over(true),
                _ => DownloadStage::Fault,
            },
            DownloadStage::Over(saved) => DownloadStage::Over(saved),
            DownloadStage::Fault => DownloadStage::Fault,
        };
        Download { request, http_server: self.http_server, stage }
    }

    /// Whether a piece was there but could not be saved.
    pub fn is_fault(&self) -> (r: bool)
        ensures
            r == (self@.step is Fault),
    {
        match &self.stage {
            DownloadStage::Fault => true,
            _ => false,
        }
    }

    /// The answer to the one who asked for the piece, once the download is over: whether the piece
    /// was saved. There is none if none is waited for, or if the download ended in a fault.
    pub fn answer(&self) -> (r: Option<bool>)
        requires
            self@.task() is None,
        ensures
            r == answer_of(self@),
            r is Some <==> self@.request.wants_answer && self@.step is Over,
            r is Some ==> self@.step == DownloadStep::Over(r->0),
    {
        match &self.stage {
            DownloadStage::Over(saved) => if self.request.wants_answer {
                Some(*saved)
            } else {
                None
            },
            _ => None,
        }
    }
}

/// What the one who asked for the piece is told at the end of a download.
pub open spec fn answer_of(d: Downloading) -> Option<bool> {
    match d.step {
        DownloadStep::Over(saved) => if d.request.wants_answer {
            Some(saved)
        } else {
            None
        },
        _ => None,
    }
}

/// How far a download has got after `events`.
pub open spec fn after_events(d: Downloading, events: Seq<Event>) -> Downloading
    decreases events.len(),
{
    if events.len() == 0 {
        d
    } else {
        after_events(d, events.drop_last()).next(events.last())
    }
}

/// What was asked for stays the same throughout a download.
pub proof fn lemma_request_stays(d: Downloading, events: Seq<Event>)
    ensures
        after_events(d, events).request == d.request,
    decreases events.len(),
{
    if events.len() > 0 {
        lemma_request_stays(d, events.drop_last());
    }
}

/// However a download goes, it is over after four events at most.
pub proof fn law_download_ends(
    request: DownloadRequest,
    http_server: Option<Seq<char>>,
    events: Seq<Event>,
)
    ensures
        events.len() >= 4 ==> after_events(
            download_started(request, http_server),
            events,
        ).task() is None,
{
    lemma_rank(request, http_server, events);
}

/// How many events a download can still take before it is over.
spec fn rank(d: Downloading) -> int {
    match d.step {
        DownloadStep::AskServer => 4,
        DownloadStep::AskCaches => 3,
        DownloadStep::AskArchivalStorage => 2,
        DownloadStep::Save(_) => 1,
        DownloadStep::Over(_) => 0,
        DownloadStep::Fault => 0,
    }
}

proof fn lemma_rank(
    request: DownloadRequest,
    http_server: Option<Seq<char>>,
    events: Seq<Event>,
)
    ensures
        rank(after_events(download_started(request, http_server), events)) <= if events.len()
            <= 4 {
            4 - events.len()
        } else {
            0
        },
    decreases events.len(),
{
    if events.len() > 0 {
        lemma_rank(request, http_server, events.drop_last());
    }
}

/// Who asks for a piece from the first sources only never makes the server ask archival storage.
pub proof fn law_archival_storage_left_alone(
    request: DownloadRequest,
    http_server: Option<Seq<char>>,
    events: Seq<Event>,
)
    requires
        request.only_l1,
    ensures
        !(after_events(download_started(request, http_server), events).step is AskArchivalStorage),
        after_events(download_started(request, http_server), events).request == request,
    decreases events.len(),
{
    if events.len() > 0 {
        law_archival_storage_left_alone(request, http_server, events.drop_last());
    }
}

/// Whether, at some point of `events`, the piece was to be saved and was.
pub open spec fn was_saved(d: Downloading, events: Seq<Event>) -> bool {
    exists|k: int|
        #![trigger events[k]]
        0 <= k < events.len() && events[k] is Saved && after_events(d, events.take(k)).step is Save
}

/// The answer tells the truth: at the end the one who waits is told that the piece was saved
/// exactly if it was.
pub proof fn law_answer_tells_whether_saved(
    request: DownloadRequest,
    http_server: Option<Seq<char>>,
    events: Seq<Event>,
)
    ensures
        after_events(download_started(request, http_server), events).step == DownloadStep::Over(
            true,
        ) <==> was_saved(download_started(request, http_server), events),
    decreases events.len(),
{
    let d = download_started(request, http_server);
    if events.len() > 0 {
        let shorter = events.drop_last();
        law_answer_tells_whether_saved(request, http_server, shorter);
        if was_saved(d, shorter) {
            let k = choose|k: int|
                #![trigger shorter[k]]
                0 <= k < shorter.len() && shorter[k] is Saved && after_events(
                    d,
                    shorter.take(k),
                ).step is Save;
            assert(events[k] == shorter[k]);
            assert(events.take(k) =~= shorter.take(k));
        }
        let last = events.len() - 1;
        assert(events.take(last) =~= shorter);
        if was_saved(d, events) && !was_saved(d, shorter) {
            let k = choose|k: int|
                #![trigger events[k]]
                0 <= k < events.len() && events[k] is Saved && after_events(
                    d,
                    events.take(k),
                ).step is Save;
            if k < last {
                assert(shorter[k] == events[k]);
                assert(events.take(k) =~= shorter.take(k));
            }
        }
        if after_events(d, shorter).step is Save && events.last() is Saved {
            assert(events[last] is Saved);
        }
    }
}

/// Only what is as long as a piece is ever to be saved: what the server sends is measured, and the
/// network hands out pieces.
pub proof fn law_only_pieces_are_saved(
    request: DownloadRequest,
    http_server: Option<Seq<char>>,
    events: Seq<Event>,
)
    requires
        forall|k: int|
            0 <= k < events.len() && (#[trigger] events[k]) is Found ==> events[k]->Found_0.len()
                == PIECE_SIZE,
    ensures
        after_events(download_started(request, http_server), events).step is Save ==> after_events(
            download_started(request, http_server),
            events,
        ).step->Save_0.len() == PIECE_SIZE,
    decreases events.len(),
{
    if events.len() > 0 {
        let shorter = events.drop_last();
        assert forall|k: int|
            0 <= k < shorter.len() && (#[trigger] shorter[k]) is Found implies
            shorter[k]->Found_0.len() == PIECE_SIZE by {
            assert(events[k] == shorter[k]);
        }
        law_only_pieces_are_saved(request, http_server, shorter);
        assert(events[events.len() - 1] == events.last());
    }
}

/// What is to be done, and what happened, is seen for what it is.
pub proof fn law_tasks_and_events_are_seen_in_full(action: DownloadAction, event: DownloadEvent)
    ensures
        action matches DownloadAction::AskServer(url) ==> action@ == Task::AskServer(url@),
        action matches DownloadAction::AskCaches(index) ==> action@ == Task::AskCaches(index.value),
        action matches DownloadAction::AskArchivalStorage(index, rounds) ==> action@
            == Task::AskArchivalStorage(index.value, rounds),
        action matches DownloadAction::Save(index, piece) ==> action@ == Task::Save(
            index.value,
            piece@,
        ),
        event matches DownloadEvent::Body(body) ==> event@ == Event::Body(body@),
        event matches DownloadEvent::Found(piece) ==> event@ == Event::Found(piece@),
        event is Nothing ==> event@ is Nothing,
        event is Saved ==> event@ is Saved,
        event is NotSaved ==> event@ is NotSaved,
{
}

/// A download begins with the address of the piece on the server, if there is a server, and with
/// the network's caches if there is none.
pub proof fn law_download_begins_with_the_server(
    request: DownloadRequest,
    http_server: Option<Seq<char>>,
)
    ensures
        download_started(request, http_server).request == request,
        http_server matches Some(base) ==> download_started(request, http_server).task() == Some(
            Task::AskServer(piece_url_text(base, request.piece_index.value)),
        ),
        http_server is None ==> download_started(request, http_server).task() == Some(
            Task::AskCaches(request.piece_index.value),
        ),
{
}

/// Whether the source that is to be asked has the piece: the server if it sends as many bytes as a
/// piece holds, the network if it finds it.
pub open spec fn has_it(d: Downloading, event: Event) -> bool {
    match d.task() {
        Some(Task::AskServer(_)) => event is Body && event->Body_0.len() == PIECE_SIZE,
        Some(Task::AskCaches(_)) => event is Found,
        Some(Task::AskArchivalStorage(_, _)) => event is Found,
        _ => false,
    }
}

/// The bytes that came with an event.
pub open spec fn bytes_of(event: Event) -> Seq<u8> {
    match event {
        Event::Body(body) => body,
        Event::Found(piece) => piece,
        _ => seq![],
    }
}

/// Once a source has the piece, the very next thing to be done is to save just the bytes that came,
/// as the piece that was asked for, whatever else was asked.
pub proof fn law_found_piece_is_saved_next(d: Downloading, event: Event)
    requires
        has_it(d, event),
    ensures
        d.next(event).task() == Some(Task::Save(d.request.piece_index.value, bytes_of(event))),
{
}

/// While no source has the piece, the next one is asked: the caches after the server, archival
/// storage after the caches unless it is to be left alone; after the last one the download is over
/// with nothing saved.
pub proof fn law_next_source_is_asked(d: Downloading, event: Event)
    requires
        !has_it(d, event),
    ensures
        d.task() is Some && d.task()->0 is AskServer ==> d.next(event).task() == Some(
            Task::AskCaches(d.request.piece_index.value),
        ),
        d.task() is Some && d.task()->0 is AskCaches && !d.request.only_l1 ==> d.next(event).task()
            == Some(Task::AskArchivalStorage(d.request.piece_index.value, 15)),
        d.task() is Some && d.task()->0 is AskCaches && d.request.only_l1 ==> d.next(event).step
            == DownloadStep::Over(false),
        d.task() is Some && d.task()->0 is AskArchivalStorage ==> d.next(event).step
            == DownloadStep::Over(false),
        d.task() is Some && d.task()->0 is Save && event is Saved ==> d.next(event).step
            == DownloadStep::Over(true),
        d.task() is Some && d.task()->0 is Save && !(event is Saved) ==> d.next(event).step
            is Fault,
        d.task() is None ==> d.next(event) == d,
        d.next(event).request == d.request,
        d.next(event).http_server == d.http_server,
{
}

/// Whether `task` was to be done at some point of `events`, and the source had nothing.
pub open spec fn was_asked_in_vain(d: Downloading, events: Seq<Event>, task: Task) -> bool {
    exists|k: int|
        #![trigger events[k]]
        0 <= k < events.len() && after_events(d, events.take(k)).task() == Some(task) && !has_it(
            after_events(d, events.take(k)),
            events[k],
        )
}

proof fn lemma_asked_stays(d: Downloading, events: Seq<Event>, task: Task)
    requires
        events.len() > 0,
        was_asked_in_vain(d, events.drop_last(), task),
    ensures
        was_asked_in_vain(d, events, task),
{
    let shorter = events.drop_last();
    let k = choose|k: int|
        #![trigger shorter[k]]
        0 <= k < shorter.len() && after_events(d, shorter.take(k)).task() == Some(task) && !has_it(
            after_events(d, shorter.take(k)),
            shorter[k],
        );
    assert(shorter.take(k) =~= events.take(k));
    assert(events[k] == shorter[k]);
}

spec fn asked_so_far(d: Downloading, events: Seq<Event>, step: DownloadStep) -> bool {
    let index = d.request.piece_index.value;
    &&& step is AskCaches || step is AskArchivalStorage || step == DownloadStep::Over(false)
        ==> (d.http_server matches Some(base) ==> was_asked_in_vain(
        d,
        events,
        Task::AskServer(piece_url_text(base, index)),
    ))
    &&& step is AskArchivalStorage || step == DownloadStep::Over(false) ==> was_asked_in_vain(
        d,
        events,
        Task::AskCaches(index),
    )
    &&& step == DownloadStep::Over(false) && !d.request.only_l1 ==> was_asked_in_vain(
        d,
        events,
        Task::AskArchivalStorage(index, 15),
    )
}

proof fn lemma_asked_so_far(
    request: DownloadRequest,
    http_server: Option<Seq<char>>,
    events: Seq<Event>,
)
    ensures
        asked_so_far(
            download_started(request, http_server),
            events,
            after_events(download_started(request, http_server), events).step,
        ),
        after_events(download_started(request, http_server), events).request == request,
        after_events(download_started(request, http_server), events).http_server == http_server,
    decreases events.len(),
{
    let d = download_started(request, http_server);
    if events.len() > 0 {
        let shorter = events.drop_last();
        lemma_asked_so_far(request, http_server, shorter);
        let before = after_events(d, shorter);
        assert forall|task: Task| was_asked_in_vain(d, shorter, task) implies #[trigger]
            was_asked_in_vain(d, events, task) by {
            lemma_asked_stays(d, events, task);
        }
        if before.task() is Some && !has_it(before, events.last()) {
            let last = events.len() - 1;
            assert(events.take(last) =~= shorter);
            assert(events[last] == events.last());
            assert(was_asked_in_vain(d, events, before.task()->0));
        }
    }
}

/// A download ends with nothing saved only if every source that it may ask was asked and had
/// nothing: the server if there is one, the caches, and archival storage unless it was to be left
/// alone.
pub proof fn law_nothing_is_saved_only_if_nothing_was_found(
    request: DownloadRequest,
    http_server: Option<Seq<char>>,
    events: Seq<Event>,
)
    requires
        after_events(download_started(request, http_server), events).step == DownloadStep::Over(
            false,
        ),
    ensures
        http_server matches Some(base) ==> was_asked_in_vain(
            download_started(request, http_server),
            events,
            Task::AskServer(piece_url_text(base, request.piece_index.value)),
        ),
        was_asked_in_vain(
            download_started(request, http_server),
            events,
            Task::AskCaches(request.piece_index.value),
        ),
        !request.only_l1 ==> was_asked_in_vain(
            download_started(request, http_server),
            events,
            Task::AskArchivalStorage(request.piece_index.value, 15),
        ),
{
    lemma_asked_so_far(request, http_server, events);
}

/// Who waits for an answer is told, at the end, how the download ended; nobody else is told.
pub proof fn law_those_who_wait_are_answered(d: Downloading)
    ensures
        d.request.wants_answer && d.step is Over ==> answer_of(d) is Some && d.step
            == DownloadStep::Over(answer_of(d)->0),
        !d.request.wants_answer || !(d.step is Over) ==> answer_of(d) is None,
{
}

} // verus!
