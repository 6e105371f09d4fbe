use mixtex::orchestrator::{
    run_to_end, DecodeOutcome, GenerationEvent, Orchestrator, OrchestratorConfig,
};
use mixtex::store::TemporaryData;

fn config() -> OrchestratorConfig {
    // Start marker 1, end marker 2, default budget 512 and threshold 10.
    OrchestratorConfig::standard(Some(1), Some(2))
}

#[test]
fn standard_config_falls_back_when_markers_undefined() {
    let c = OrchestratorConfig::standard(None, None);
    assert_eq!(c.bos_token, 0);
    assert_eq!(c.eos_token, 30000);
    assert_eq!(c.max_steps, 512);
    assert_eq!(c.repeat_count, 10);
}

#[test]
fn end_marker_completes_and_persists() {
    let mut store = TemporaryData::new();
    let outcomes = vec![DecodeOutcome::Token(7), DecodeOutcome::Token(2)];
    let (events, persisted) = run_to_end(config(), DecodeOutcome::Token(5), &outcomes, &mut store);
    assert_eq!(
        events,
        vec![
            GenerationEvent::Token(5),
            GenerationEvent::Token(7),
            GenerationEvent::Token(2),
        ]
    );
    assert!(persisted);
    assert_eq!(store.token_id_array(), &vec![1u32, 5, 7, 2]);
}

#[test]
fn budget_bounds_run_even_without_end_marker() {
    // A decoder that never produces the end marker and never repeats:
    // the run must stop at the step budget.
    let mut store = TemporaryData::new();
    let outcomes: Vec<DecodeOutcome> = (10..10 + 600u32).map(DecodeOutcome::Token).collect();
    let (events, persisted) = run_to_end(config(), DecodeOutcome::Token(5), &outcomes, &mut store);
    // One echoed initial token, one event per consumed step, and one
    // informational cut-off event.
    assert_eq!(events.len(), 1 + 512 + 1);
    assert_eq!(*events.last().unwrap(), GenerationEvent::BudgetExhausted);
    assert!(persisted);
    assert_eq!(store.token_id_array().len(), 2 + 512);
}

#[test]
fn step_failure_aborts_and_leaves_store_unchanged() {
    let mut store = TemporaryData::new();
    store.set_token_id_array(vec![9u32, 9]);
    let outcomes = vec![
        DecodeOutcome::Token(10),
        DecodeOutcome::Token(11),
        DecodeOutcome::Token(12),
        DecodeOutcome::Token(13),
        DecodeOutcome::Failure,
        DecodeOutcome::Token(14),
        DecodeOutcome::Token(2),
    ];
    let (events, persisted) = run_to_end(config(), DecodeOutcome::Token(5), &outcomes, &mut store);
    assert_eq!(events.len(), 6);
    assert_eq!(events[5], GenerationEvent::StepFailure);
    assert!(!persisted);
    assert_eq!(store.token_id_array(), &vec![9u32, 9]);
}

#[test]
fn init_failure_aborts_before_any_token() {
    let mut store = TemporaryData::new();
    store.set_token_id_array(vec![4u32]);
    let outcomes = vec![DecodeOutcome::Token(10), DecodeOutcome::Token(2)];
    let (events, persisted) = run_to_end(config(), DecodeOutcome::Failure, &outcomes, &mut store);
    assert_eq!(events, vec![GenerationEvent::InitFailure]);
    assert!(!persisted);
    assert_eq!(store.token_id_array(), &vec![4u32]);
}

#[test]
fn constant_decoder_trips_repetition_guard() {
    // A decoder stuck on one token id must trip the guard within the
    // repeat threshold, with exactly one halt diagnostic as the last
    // event, and the sequence recorded up to that point is persisted.
    let mut store = TemporaryData::new();
    let outcomes = vec![DecodeOutcome::Token(5); 20];
    let (events, persisted) = run_to_end(config(), DecodeOutcome::Token(5), &outcomes, &mut store);
    let halts = events
        .iter()
        .filter(|e| **e == GenerationEvent::RepetitionHalt)
        .count();
    assert_eq!(halts, 1);
    assert_eq!(*events.last().unwrap(), GenerationEvent::RepetitionHalt);
    // Guard trips within the threshold: the first event echoes the
    // initial token, then at most ten steps are consumed.
    assert!(events.len() <= 1 + 10);
    assert!(persisted);
    // Start marker, then the ten identical tokens appended before the trip.
    assert_eq!(store.token_id_array(), &vec![1u32, 5, 5, 5, 5, 5, 5, 5, 5, 5, 5]);
}

#[test]
fn machine_steps_match_run() {
    let (mut orch, first) = Orchestrator::start(config(), DecodeOutcome::Token(3));
    assert_eq!(first, GenerationEvent::Token(3));
    assert!(orch.is_running());
    assert_eq!(orch.tokens(), &vec![1u32, 3]);
    let ev = orch.step(DecodeOutcome::Token(2));
    assert_eq!(ev, GenerationEvent::Token(2));
    assert!(!orch.is_running());
    let mut store = TemporaryData::new();
    let persisted = orch.finish(&mut store);
    assert!(persisted);
    assert_eq!(store.token_id_array(), &vec![1u32, 3, 2]);
}

#[test]
fn aborted_machine_does_not_persist() {
    let (mut orch, _) = Orchestrator::start(config(), DecodeOutcome::Token(3));
    let ev = orch.step(DecodeOutcome::Failure);
    assert_eq!(ev, GenerationEvent::StepFailure);
    assert!(!orch.is_running());
    let mut store = TemporaryData::new();
    store.set_token_id_array(vec![8u32]);
    let persisted = orch.finish(&mut store);
    assert!(!persisted);
    assert_eq!(store.token_id_array(), &vec![8u32]);
}
