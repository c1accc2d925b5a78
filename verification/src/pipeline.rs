//! The per-request pipeline: log, build the upstream request, consult the
//! cache, and on a miss execute the upstream and store its response. The
//! decisions live here; the embedder performs each action and reports the
//! outcome as the next event.

use crate::error::Error;
use crate::storage::CacheEntry;
use vstd::prelude::*;

verus! {

/// Where one request stands in its pipeline.
#[derive(Debug, Clone, Copy, PartialEq, Eq, Structural)]
pub enum PipelineState {
    /// Nothing has happened yet.
    Start,
    /// The request was appended to the log (or no log is attached).
    Logged,
    /// The upstream request is built; the cache can be consulted.
    Built,
    /// The cache holds the response; it is being served.
    Hit,
    /// The cache has no entry; the upstream is being called.
    Miss,
    /// The upstream answered; its response is being stored.
    Executed,
    /// The response is stored; it is being served from the entry.
    Stored,
    /// The response was delivered.
    Done,
    /// The request failed; a server error was delivered.
    Failed,
}

/// What the embedder reports back after performing an action.
#[derive(Debug, Clone, Copy, PartialEq, Eq, Structural)]
pub enum PipelineEvent {
    /// The request was logged, or logging was skipped (it is non-fatal).
    Logged,
    /// The upstream request was built from the inbound request.
    Built,
    /// The cache lookup found a complete entry.
    LookupHit,
    /// The cache lookup found no complete entry.
    LookupMiss,
    /// The cache lookup failed on a malformed entry or an I/O error.
    LookupError,
    /// The upstream call returned a response, whatever its status.
    UpstreamOk,
    /// The upstream call failed in transport.
    UpstreamError,
    /// The response was persisted as a cache entry.
    StoreOk,
    /// Persisting the response failed.
    StoreError,
    /// The response was streamed to the client.
    Served,
}

/// What the embedder must do next.
#[derive(Debug, Clone, Copy, PartialEq, Eq, Structural)]
pub enum PipelineAction {
    /// Build the upstream request; this consumes the inbound body.
    BuildUpstream,
    /// Consult the cache store.
    Lookup,
    /// Stream the cached entry to the client; the upstream is not called.
    ServeCached,
    /// Execute the built upstream request.
    ExecuteUpstream,
    /// Persist the upstream response: body, headers, status, in order.
    StoreResponse,
    /// Stream the just-stored entry to the client.
    ServeStored,
    /// Deliver a server error to the client.
    RespondServerError,
    /// Nothing remains to be done.
    Finished,
}

/// The transition table of the pipeline. Any event that the current state
/// does not expect fails the request.
pub open spec fn step_spec(s: PipelineState, e: PipelineEvent) -> (PipelineState, PipelineAction) {
    match (s, e) {
        (PipelineState::Start, PipelineEvent::Logged) => (
            PipelineState::Logged,
            PipelineAction::BuildUpstream,
        ),
        (PipelineState::Logged, PipelineEvent::Built) => (
            PipelineState::Built,
            PipelineAction::Lookup,
        ),
        (PipelineState::Built, PipelineEvent::LookupHit) => (
            PipelineState::Hit,
            PipelineAction::ServeCached,
        ),
        (PipelineState::Built, PipelineEvent::LookupMiss) => (
            PipelineState::Miss,
            PipelineAction::ExecuteUpstream,
        ),
        (PipelineState::Hit, PipelineEvent::Served) => (
            PipelineState::Done,
            PipelineAction::Finished,
        ),
        (PipelineState::Miss, PipelineEvent::UpstreamOk) => (
            PipelineState::Executed,
            PipelineAction::StoreResponse,
        ),
        (PipelineState::Executed, PipelineEvent::StoreOk) => (
            PipelineState::Stored,
            PipelineAction::ServeStored,
        ),
        (PipelineState::Stored, PipelineEvent::Served) => (
            PipelineState::Done,
            PipelineAction::Finished,
        ),
        _ => (PipelineState::Failed, PipelineAction::RespondServerError),
    }
}

/// One step of the pipeline.
pub fn pipeline_step(s: PipelineState, e: PipelineEvent) -> (r: (PipelineState, PipelineAction))
    ensures
        r == step_spec(s, e),
{
    match (s, e) {
        (PipelineState::Start, PipelineEvent::Logged) => (
            PipelineState::Logged,
            PipelineAction::BuildUpstream,
        ),
        (PipelineState::Logged, PipelineEvent::Built) => (
            PipelineState::Built,
            PipelineAction::Lookup,
        ),
        (PipelineState::Built, PipelineEvent::LookupHit) => (
            PipelineState::Hit,
            PipelineAction::ServeCached,
        ),
        (PipelineState::Built, PipelineEvent::LookupMiss) => (
            PipelineState::Miss,
            PipelineAction::ExecuteUpstream,
        ),
        (PipelineState::Hit, PipelineEvent::Served) => (
            PipelineState::Done,
            PipelineAction::Finished,
        ),
        (PipelineState::Miss, PipelineEvent::UpstreamOk) => (
            PipelineState::Executed,
            PipelineAction::StoreResponse,
        ),
        (PipelineState::Executed, PipelineEvent::StoreOk) => (
            PipelineState::Stored,
            PipelineAction::ServeStored,
        ),
        (PipelineState::Stored, PipelineEvent::Served) => (
            PipelineState::Done,
            PipelineAction::Finished,
        ),
        _ => (PipelineState::Failed, PipelineAction::RespondServerError),
    }
}

/// The lookup outcome as a pipeline event: a complete entry is a hit, a
/// cache miss sends the request to the upstream, and anything else fails
/// the request.
pub fn lookup_event(r: &Result<CacheEntry, Error>) -> (e: PipelineEvent)
    ensures
        r is Ok ==> e == PipelineEvent::LookupHit,
        r matches Err(er) && er == Error::CacheMiss ==> e == PipelineEvent::LookupMiss,
        r matches Err(er) && er != Error::CacheMiss ==> e == PipelineEvent::LookupError,
{
    match r {
        Ok(_) => PipelineEvent::LookupHit,
        Err(er) => {
            if er.is_cache_miss() {
                PipelineEvent::LookupMiss
            } else {
                PipelineEvent::LookupError
            }
        },
    }
}

/// The states and actions a run of the pipeline passes through: starting at
/// `Start`, each event moves the machine and appends the action it asks of
/// the embedder.
pub open spec fn run_spec(events: Seq<PipelineEvent>) -> (PipelineState, Seq<PipelineAction>)
    decreases events.len(),
{
    if events.len() == 0 {
        (PipelineState::Start, Seq::empty())
    } else {
        let (s, acts) = run_spec(events.drop_last());
        let (s2, a) = step_spec(s, events.last());
        (s2, acts.push(a))
    }
}

/// Law: the upstream is only ever called after the cache missed. A run
/// whose events never report a lookup miss never issues the action that
/// executes the upstream request.
pub proof fn lemma_upstream_only_after_miss(events: Seq<PipelineEvent>)
    requires
        forall|i: int| 0 <= i < events.len() ==> events[i] != PipelineEvent::LookupMiss,
    ensures
        forall|i: int|
            0 <= i < run_spec(events).1.len() ==> run_spec(events).1[i]
                != PipelineAction::ExecuteUpstream,
    decreases events.len(),
{
    if events.len() > 0 {
        let prefix = events.drop_last();
        assert(forall|i: int|
            0 <= i < prefix.len() ==> prefix[i] == events[i] && #[trigger] prefix[i]
                != PipelineEvent::LookupMiss);
        lemma_upstream_only_after_miss(prefix);
        let (s, acts) = run_spec(prefix);
        let (s2, a) = step_spec(s, events.last());
        assert(events.last() != PipelineEvent::LookupMiss);
        assert(a != PipelineAction::ExecuteUpstream);
        assert forall|i: int| 0 <= i < run_spec(events).1.len() implies run_spec(events).1[i]
            != PipelineAction::ExecuteUpstream by {
            if i < acts.len() {
                assert(run_spec(events).1[i] == acts[i]);
            }
        }
    }
}

} // verus!
