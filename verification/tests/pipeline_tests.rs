use parody::error::CommonError;
use parody::error::Error;
use parody::pipeline::lookup_event;
use parody::pipeline::pipeline_step;
use parody::pipeline::PipelineAction;
use parody::pipeline::PipelineEvent;
use parody::pipeline::PipelineState;
use parody::storage::CacheEntry;

fn run(events: &[PipelineEvent]) -> (PipelineState, Vec<PipelineAction>) {
    let mut state = PipelineState::Start;
    let mut actions = Vec::new();
    for e in events {
        let (next, action) = pipeline_step(state, *e);
        state = next;
        actions.push(action);
    }
    (state, actions)
}

#[test]
fn pipeline_cache_hit_never_contacts_the_upstream() {
    let (state, actions) = run(&[
        PipelineEvent::Logged,
        PipelineEvent::Built,
        PipelineEvent::LookupHit,
        PipelineEvent::Served,
    ]);
    assert_eq!(state, PipelineState::Done);
    assert_eq!(
        actions,
        vec![
            PipelineAction::BuildUpstream,
            PipelineAction::Lookup,
            PipelineAction::ServeCached,
            PipelineAction::Finished,
        ]
    );
    assert!(!actions.contains(&PipelineAction::ExecuteUpstream));
    assert!(!actions.contains(&PipelineAction::StoreResponse));
}

#[test]
fn pipeline_cache_miss_records_and_serves_the_stored_entry() {
    let (state, actions) = run(&[
        PipelineEvent::Logged,
        PipelineEvent::Built,
        PipelineEvent::LookupMiss,
        PipelineEvent::UpstreamOk,
        PipelineEvent::StoreOk,
        PipelineEvent::Served,
    ]);
    assert_eq!(state, PipelineState::Done);
    assert_eq!(
        actions,
        vec![
            PipelineAction::BuildUpstream,
            PipelineAction::Lookup,
            PipelineAction::ExecuteUpstream,
            PipelineAction::StoreResponse,
            PipelineAction::ServeStored,
            PipelineAction::Finished,
        ]
    );
}

#[test]
fn pipeline_failures_deliver_a_server_error() {
    for failure in [
        PipelineEvent::LookupError,
        PipelineEvent::UpstreamError,
        PipelineEvent::StoreError,
    ] {
        let prefix: &[PipelineEvent] = match failure {
            PipelineEvent::LookupError => &[PipelineEvent::Logged, PipelineEvent::Built],
            PipelineEvent::UpstreamError => &[
                PipelineEvent::Logged,
                PipelineEvent::Built,
                PipelineEvent::LookupMiss,
            ],
            _ => &[
                PipelineEvent::Logged,
                PipelineEvent::Built,
                PipelineEvent::LookupMiss,
                PipelineEvent::UpstreamOk,
            ],
        };
        let mut events = prefix.to_vec();
        events.push(failure);
        let (state, actions) = run(&events);
        assert_eq!(state, PipelineState::Failed);
        assert_eq!(actions.last(), Some(&PipelineAction::RespondServerError));
    }
}

#[test]
fn pipeline_malformed_entry_fails_without_an_upstream_call() {
    // a corrupt status file: the lookup errors and the request fails
    let event = lookup_event(&Err(Error::Common(CommonError::MalformedStatus)));
    assert_eq!(event, PipelineEvent::LookupError);
    let (state, actions) = run(&[PipelineEvent::Logged, PipelineEvent::Built, event]);
    assert_eq!(state, PipelineState::Failed);
    assert!(!actions.contains(&PipelineAction::ExecuteUpstream));
}

#[test]
fn lookup_event_distinguishes_hit_miss_and_error() {
    let hit: Result<CacheEntry, Error> = Ok(CacheEntry {
        status: 200,
        headers: vec![],
        body: vec![],
    });
    assert_eq!(lookup_event(&hit), PipelineEvent::LookupHit);
    assert_eq!(
        lookup_event(&Err(Error::CacheMiss)),
        PipelineEvent::LookupMiss
    );
    assert_eq!(
        lookup_event(&Err(Error::Common(CommonError::IoError))),
        PipelineEvent::LookupError
    );
}
