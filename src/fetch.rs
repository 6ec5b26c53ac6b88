//! The decisions of a cache-aware, checksum-gated download with bounded
//! retries. The caller performs each action (read the cached file, send the
//! request, read a chunk, wait) and reports what happened as the next event.

use vstd::prelude::*;
use crate::checksum::{ChecksumType, checksum_ok, verify_hash};
use crate::error::LaunchError;

verus! {

/// Request-level attempts allowed after the first (connection failures and
/// checksum mismatches share this budget).
pub const REQUEST_RETRIES: u64 = 5;

/// Chunk-level retries allowed while reading one body.
pub const CHUNK_RETRIES: u64 = 10;

/// What a download is asked to do.
#[derive(Clone, Debug)]
pub struct FetchConfig {
    /// Expected digest; empty trusts any content.
    pub checksum: String,
    pub kind: ChecksumType,
    /// Whether the content has a destination on disk.
    pub has_destination: bool,
    /// Unpack the content as an archive into the destination directory.
    pub extract: bool,
    /// Skip the cached copy.
    pub force: bool,
}

/// Where a download stands.
#[derive(Clone, Copy, Debug, PartialEq, Eq, Structural)]
pub enum FetchPhase {
    ReadingCache,
    Requesting,
    Streaming,
    Done,
    Failed,
}

/// What the caller observed after performing the last action.
#[derive(Clone, Debug)]
pub enum FetchEvent {
    /// The destination's content, or `None` when there is no such file.
    CacheRead(Option<Vec<u8>>),
    /// The response arrived and its body can be read.
    Connected,
    /// The request could not be sent or answered.
    ConnectFailed,
    /// One more chunk of the body.
    Chunk(Vec<u8>),
    /// Reading a chunk failed.
    ChunkFailed,
    /// The body is complete.
    BodyEnded,
}

/// How delivered content is kept.
#[derive(Clone, Copy, Debug, PartialEq, Eq, Structural)]
pub enum Storage {
    /// Nothing to write (it came from the cache, or has no destination).
    Keep,
    /// Write the bytes to the destination, creating parent directories.
    Write,
    /// Unpack the bytes as an archive into the destination directory.
    Extract,
}

/// What the caller does next.
#[derive(Clone, Debug)]
pub enum FetchAction {
    /// Read the destination file.
    ReadCache,
    /// Wait `delay_secs` seconds, then send the request.
    Request { delay_secs: u64 },
    /// Wait `delay_secs` seconds, then read the next chunk.
    ReadChunk { delay_secs: u64 },
    /// The content is verified: store it as told and hand it back.
    Deliver { bytes: Vec<u8>, storage: Storage },
    /// Give up.
    Fail { error: LaunchError },
}

/// A download in progress.
pub struct Fetcher {
    pub config: FetchConfig,
    pub phase: FetchPhase,
    pub request_retries: u64,
    pub chunk_retries: u64,
    pub body: Vec<u8>,
}

/// The state of a download as values.
pub struct FetcherView {
    pub phase: FetchPhase,
    pub request_retries: u64,
    pub chunk_retries: u64,
    pub body: Seq<u8>,
}

/// An event as values.
pub enum EventView {
    CacheRead(Option<Seq<u8>>),
    Connected,
    ConnectFailed,
    Chunk(Seq<u8>),
    ChunkFailed,
    BodyEnded,
}

/// An action as values.
pub enum ActionView {
    ReadCache,
    Request(u64),
    ReadChunk(u64),
    Deliver(Seq<u8>, Storage),
    Fail(LaunchError),
}

impl View for Fetcher {
    type V = FetcherView;

    open spec fn view(&self) -> FetcherView {
        FetcherView {
            phase: self.phase,
            request_retries: self.request_retries,
            chunk_retries: self.chunk_retries,
            body: self.body@,
        }
    }
}

impl View for FetchEvent {
    type V = EventView;

    open spec fn view(&self) -> EventView {
        match self {
            FetchEvent::CacheRead(c) => EventView::CacheRead(
                match c {
                    Some(b) => Some(b@),
                    None => None,
                },
            ),
            FetchEvent::Connected => EventView::Connected,
            FetchEvent::ConnectFailed => EventView::ConnectFailed,
            FetchEvent::Chunk(b) => EventView::Chunk(b@),
            FetchEvent::ChunkFailed => EventView::ChunkFailed,
            FetchEvent::BodyEnded => EventView::BodyEnded,
        }
    }
}

impl View for FetchAction {
    type V = ActionView;

    open spec fn view(&self) -> ActionView {
        match self {
            FetchAction::ReadCache => ActionView::ReadCache,
            FetchAction::Request { delay_secs } => ActionView::Request(*delay_secs),
            FetchAction::ReadChunk { delay_secs } => ActionView::ReadChunk(*delay_secs),
            FetchAction::Deliver { bytes, storage } => ActionView::Deliver(bytes@, *storage),
            FetchAction::Fail { error } => ActionView::Fail(*error),
        }
    }
}

/// Content passes the configured checksum.
pub open spec fn passes(c: FetchConfig, data: Seq<u8>) -> bool {
    checksum_ok(c.checksum@, c.kind, data)
}

/// How freshly downloaded content is stored.
pub open spec fn storage_spec(c: FetchConfig) -> Storage {
    if !c.has_destination {
        Storage::Keep
    } else if c.extract {
        Storage::Extract
    } else {
        Storage::Write
    }
}

/// The first state and action of a download: read the cache unless forced
/// or without destination, else request at once.
pub open spec fn start_spec(c: FetchConfig) -> (FetcherView, ActionView) {
    if !c.force && c.has_destination {
        (FetcherView { phase: FetchPhase::ReadingCache, request_retries: 0, chunk_retries: 0, body: Seq::empty() }, ActionView::ReadCache)
    } else {
        (FetcherView { phase: FetchPhase::Requesting, request_retries: 0, chunk_retries: 0, body: Seq::empty() }, ActionView::Request(0))
    }
}

/// After a request-level failure: retry with a delay one second longer
/// than the attempt number, or give up with `error` once the budget is spent.
pub open spec fn retry_request_spec(s: FetcherView, error: LaunchError) -> (FetcherView, ActionView) {
    if s.request_retries >= REQUEST_RETRIES {
        (FetcherView { phase: FetchPhase::Failed, ..s }, ActionView::Fail(error))
    } else {
        let n = (s.request_retries + 1) as u64;
        (FetcherView { phase: FetchPhase::Requesting, request_retries: n, ..s }, ActionView::Request((n + 1) as u64))
    }
}

/// One transition of a download.
pub open spec fn next_spec(c: FetchConfig, s: FetcherView, e: EventView) -> (FetcherView, ActionView) {
    match (s.phase, e) {
        (FetchPhase::ReadingCache, EventView::CacheRead(Some(b))) => if passes(c, b) {
            (FetcherView { phase: FetchPhase::Done, ..s }, ActionView::Deliver(b, Storage::Keep))
        } else {
            (FetcherView { phase: FetchPhase::Requesting, ..s }, ActionView::Request(0))
        },
        (FetchPhase::ReadingCache, EventView::CacheRead(None)) => (
            FetcherView { phase: FetchPhase::Requesting, ..s },
            ActionView::Request(0),
        ),
        (FetchPhase::Requesting, EventView::Connected) => (
            FetcherView { phase: FetchPhase::Streaming, chunk_retries: 0, body: Seq::empty(), ..s },
            ActionView::ReadChunk(0),
        ),
        (FetchPhase::Requesting, EventView::ConnectFailed) => retry_request_spec(s, LaunchError::Network),
        (FetchPhase::Streaming, EventView::Chunk(b)) => (
            FetcherView { body: s.body + b, ..s },
            ActionView::ReadChunk(0),
        ),
        (FetchPhase::Streaming, EventView::ChunkFailed) => if s.chunk_retries >= CHUNK_RETRIES {
            (FetcherView { phase: FetchPhase::Failed, ..s }, ActionView::Fail(LaunchError::Network))
        } else {
            let n = (s.chunk_retries + 1) as u64;
            (FetcherView { chunk_retries: n, ..s }, ActionView::ReadChunk((n + 1) as u64))
        },
        (FetchPhase::Streaming, EventView::BodyEnded) => if passes(c, s.body) {
            (FetcherView { phase: FetchPhase::Done, body: Seq::empty(), ..s }, ActionView::Deliver(s.body, storage_spec(c)))
        } else {
            retry_request_spec(s, LaunchError::ChecksumMismatch)
        },
        _ => (FetcherView { phase: FetchPhase::Failed, ..s }, ActionView::Fail(LaunchError::Network)),
    }
}

/// The counters stay within their budgets.
pub open spec fn counters_ok(s: FetcherView) -> bool {
    s.request_retries <= REQUEST_RETRIES && s.chunk_retries <= CHUNK_RETRIES
}

impl Fetcher {
    /// The counters stay within their budgets.
    pub open spec fn wf(&self) -> bool {
        counters_ok(self@)
    }

    /// Starts a download and says what to do first.
    pub fn start(config: FetchConfig) -> (r: (Fetcher, FetchAction))
        ensures
            r.0.wf(),
            r.0.config == config,
            (r.0@, r.1@) == start_spec(config),
    {
        let read_cache = !config.force && config.has_destination;
        let f = Fetcher {
            config,
            phase: if read_cache {
                FetchPhase::ReadingCache
            } else {
                FetchPhase::Requesting
            },
            request_retries: 0,
            chunk_retries: 0,
            body: Vec::new(),
        };
        if read_cache {
            (f, FetchAction::ReadCache)
        } else {
            (f, FetchAction::Request { delay_secs: 0 })
        }
    }

    fn retry_request(&mut self, error: LaunchError) -> (r: FetchAction)
        requires
            old(self).wf(),
        ensures
            final(self).wf(),
            final(self).config == old(self).config,
            (final(self)@, r@) == retry_request_spec(old(self)@, error),
    {
        if self.request_retries >= REQUEST_RETRIES {
            self.phase = FetchPhase::Failed;
            FetchAction::Fail { error }
        } else {
            self.request_retries = self.request_retries + 1;
            self.phase = FetchPhase::Requesting;
            FetchAction::Request { delay_secs: self.request_retries + 1 }
        }
    }

    /// Takes in what happened and says what to do next.
    pub fn step(&mut self, event: FetchEvent) -> (r: FetchAction)
        requires
            old(self).wf(),
        ensures
            final(self).wf(),
            final(self).config == old(self).config,
            (final(self)@, r@) == next_spec(old(self).config, old(self)@, event@),
    {
        let ghost e = event@;
        match (self.phase, event) {
            (FetchPhase::ReadingCache, FetchEvent::CacheRead(Some(b))) => {
                if verify_hash(&self.config.checksum, self.config.kind, &b) {
                    self.phase = FetchPhase::Done;
                    FetchAction::Deliver { bytes: b, storage: Storage::Keep }
                } else {
                    self.phase = FetchPhase::Requesting;
                    FetchAction::Request { delay_secs: 0 }
                }
            },
            (FetchPhase::ReadingCache, FetchEvent::CacheRead(None)) => {
                self.phase = FetchPhase::Requesting;
                FetchAction::Request { delay_secs: 0 }
            },
            (FetchPhase::Requesting, FetchEvent::Connected) => {
                self.phase = FetchPhase::Streaming;
                self.chunk_retries = 0;
                self.body = Vec::new();
                FetchAction::ReadChunk { delay_secs: 0 }
            },
            (FetchPhase::Requesting, FetchEvent::ConnectFailed) => self.retry_request(LaunchError::Network),
            (FetchPhase::Streaming, FetchEvent::Chunk(b)) => {
                let mut more = b;
                self.body.append(&mut more);
                FetchAction::ReadChunk { delay_secs: 0 }
            },
            (FetchPhase::Streaming, FetchEvent::ChunkFailed) => {
                if self.chunk_retries >= CHUNK_RETRIES {
                    self.phase = FetchPhase::Failed;
                    FetchAction::Fail { error: LaunchError::Network }
                } else {
                    self.chunk_retries = self.chunk_retries + 1;
                    FetchAction::ReadChunk { delay_secs: self.chunk_retries + 1 }
                }
            },
            (FetchPhase::Streaming, FetchEvent::BodyEnded) => {
                if verify_hash(&self.config.checksum, self.config.kind, &self.body) {
                    self.phase = FetchPhase::Done;
                    let storage = if !self.config.has_destination {
                        Storage::Keep
                    } else if self.config.extract {
                        Storage::Extract
                    } else {
                        Storage::Write
                    };
                    let mut bytes: Vec<u8> = Vec::new();
                    bytes.append(&mut self.body);
                    FetchAction::Deliver { bytes, storage }
                } else {
                    self.retry_request(LaunchError::ChecksumMismatch)
                }
            },
            _ => {
                self.phase = FetchPhase::Failed;
                FetchAction::Fail { error: LaunchError::Network }
            },
        }
    }
}

/// Once a download has delivered content for storage at its destination, an
/// identical (unforced) download starts by reading that destination and,
/// finding the same content, delivers it without sending any request.
pub proof fn lemma_second_fetch_is_local(c: FetchConfig, s: FetcherView, e: EventView)
    requires
        !c.force,
        next_spec(c, s, e).1 matches ActionView::Deliver(b, st) && st != Storage::Keep,
    ensures
        ({
            let b = next_spec(c, s, e).1->Deliver_0;
            let (s0, a0) = start_spec(c);
            &&& a0 == ActionView::ReadCache
            &&& next_spec(c, s0, EventView::CacheRead(Some(b))).1 == ActionView::Deliver(b, Storage::Keep)
        }),
{
}

/// No transition delivers content that fails a non-empty expected checksum;
/// cached content that fails it is never delivered but requested afresh.
pub proof fn lemma_delivery_passes_checksum(c: FetchConfig, s: FetcherView, e: EventView)
    ensures
        next_spec(c, s, e).1 matches ActionView::Deliver(b, _) ==> passes(c, b),
        forall|b: Seq<u8>|
            s.phase == FetchPhase::ReadingCache && e == EventView::CacheRead(Some(b)) && !passes(c, b)
                ==> #[trigger] next_spec(c, s, EventView::CacheRead(Some(b))).1 == ActionView::Request(0),
{
}

} // verus!
