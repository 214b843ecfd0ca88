//! Lightweight reinforcement-learning trainer: the bookkeeping core.
//!
//! The library keeps the bookkeeping of a training node: configuration,
//! replay buffer, per-action statistics, training schedule, diagnostic
//! footsteps and GPU parameter layout, each with its contract.

use std::sync::Arc;
use vstd::prelude::*;

pub mod configurations;
pub mod footstep;
pub mod gpu_model;
pub mod node;
pub mod reply_buffer;
pub mod reward;
pub mod worker;

pub use crate::configurations::ComputeBackend;
pub use crate::configurations::Configurations;
pub use crate::node::RunningMode;
pub use crate::reply_buffer::ReplayBuffer;
pub use crate::footstep::Footstep;

verus! {

/// The slot that holds the process-wide configuration once it has been given.
pub struct ConfigCell {
    slot: Option<Arc<Configurations>>,
}

impl View for ConfigCell {
    type V = Option<Configurations>;

    closed spec fn view(&self) -> Option<Configurations> {
        match self.slot {
            Some(c) => Some(*c),
            None => None,
        }
    }
}

impl ConfigCell {
    /// An empty slot: no configuration has been given yet.
    pub fn new() -> (cell: Self)
        ensures
            cell@ is None,
    {
        ConfigCell { slot: None }
    }

    /// Whether a configuration has been given.
    pub fn is_set(&self) -> (set: bool)
        ensures
            set == (self@ is Some),
    {
        self.slot.is_some()
    }
}

/// `Arc::clone`: another pointer to the same configuration.
#[verifier::external_body]
fn share_config(config: &Arc<Configurations>) -> (shared: Arc<Configurations>)
    ensures
        *shared == **config,
{
    Arc::clone(config)
}

/// Stores the configuration; a slot can be given a configuration only once.
pub fn initialize(cell: &mut ConfigCell, config: Arc<Configurations>)
    requires
        old(cell)@ is None,
    ensures
        final(cell)@ == Some(*config),
{
    cell.slot = Some(config);
}

/// Hands out the configuration that was given.
pub fn get_config(cell: &ConfigCell) -> (config: Arc<Configurations>)
    requires
        cell@ is Some,
    ensures
        *config == cell@.unwrap(),
{
    let stored = cell.slot.as_ref().unwrap();
    share_config(stored)
}

} // verus!
