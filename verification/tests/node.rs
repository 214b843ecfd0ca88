use std::collections::HashMap;

use aixker_rlt::node::{
    after_step, get_action_total, least_taken_action, save_cycle, ActionDetails, StepDecision,
};
use aixker_rlt::reward::{action_fit, ActionFit};
use aixker_rlt::RunningMode;

#[test]
fn new_action_starts_at_zero() {
    let details = ActionDetails::new();
    assert_eq!(details.total(), 0);
    assert_eq!(details.success_count(), 0);
    let default = ActionDetails::default();
    assert_eq!(default.total(), 0);
}

#[test]
fn save_cycle_counts_successes_and_failures() {
    let mut details: HashMap<u32, ActionDetails> = HashMap::new();
    save_cycle(&mut details, 1, true);
    save_cycle(&mut details, 1, false);
    save_cycle(&mut details, 1, true);
    save_cycle(&mut details, 2, false);
    assert_eq!(details.len(), 2);
    assert_eq!(details[&1].total(), 3);
    assert_eq!(details[&1].success_count(), 2);
    assert_eq!(details[&2].total(), 1);
    assert_eq!(details[&2].success_count(), 0);
}

#[test]
fn action_totals_fill_missing_actions_with_zero() {
    let mut details: HashMap<u32, ActionDetails> = HashMap::new();
    save_cycle(&mut details, 0, true);
    save_cycle(&mut details, 2, true);
    save_cycle(&mut details, 2, false);
    assert_eq!(get_action_total(&details, 3), vec![1, 0, 2]);
    assert_eq!(get_action_total(&HashMap::new(), 2), vec![0, 0]);
}

#[test]
fn training_step_at_batch_end() {
    assert_eq!(
        after_step(RunningMode::Training, 64, 32, 0, 10),
        StepDecision { train: true, finish: false }
    );
    assert_eq!(
        after_step(RunningMode::Training, 65, 32, 0, 10),
        StepDecision { train: false, finish: false }
    );
}

#[test]
fn other_modes_never_train_inline() {
    assert!(!after_step(RunningMode::Infer, 64, 32, 0, 10).train);
    assert!(!after_step(RunningMode::TrainingWithInterval, 64, 32, 0, 10).train);
}

#[test]
fn zero_batch_size_trains_only_at_step_zero() {
    assert!(after_step(RunningMode::Training, 0, 0, 0, 10).train);
    assert!(!after_step(RunningMode::Training, 5, 0, 0, 10).train);
}

#[test]
fn finishes_at_total_batches() {
    assert!(!after_step(RunningMode::Infer, 1, 1, 9, 10).finish);
    assert!(after_step(RunningMode::Infer, 1, 1, 10, 10).finish);
    assert!(after_step(RunningMode::Infer, 1, 1, 11, 10).finish);
}

#[test]
fn action_fit_classifies_levels() {
    assert_eq!(action_fit(1, 1), ActionFit::Matching);
    assert_eq!(action_fit(0, 1), ActionFit::Adjacent);
    assert_eq!(action_fit(2, 1), ActionFit::Adjacent);
    assert_eq!(action_fit(0, 2), ActionFit::Opposite);
    assert_eq!(action_fit(2, 0), ActionFit::Opposite);
}

#[test]
fn least_taken_action_picks_the_rarest() {
    let mut details: HashMap<u32, ActionDetails> = HashMap::new();
    assert_eq!(least_taken_action(&details), u32::MAX);
    save_cycle(&mut details, 0, true);
    save_cycle(&mut details, 0, true);
    save_cycle(&mut details, 1, false);
    save_cycle(&mut details, 2, true);
    save_cycle(&mut details, 2, true);
    save_cycle(&mut details, 2, false);
    assert_eq!(least_taken_action(&details), 1);
}
