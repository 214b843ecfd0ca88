use std::sync::Arc;

use aixker_rlt::{get_config, initialize, ComputeBackend, ConfigCell, Configurations, RunningMode};

fn sample_config() -> Configurations {
    Configurations {
        interval_secs: 5,
        batch_size: 32,
        total_batches: 1000,
        input_number: 6,
        output_number: 3,
        hidden_layers: 16,
        reply_capacity: 512,
        model_name: String::from("model.json"),
        log_interval: 10,
        mode: RunningMode::Training,
        backend: ComputeBackend::default(),
    }
}

#[test]
fn default_backend_is_cpu() {
    assert_eq!(ComputeBackend::default(), ComputeBackend::Cpu);
}

#[test]
fn config_cell_starts_empty() {
    let cell = ConfigCell::new();
    assert!(!cell.is_set());
}

#[test]
fn get_config_returns_what_was_initialized() {
    let mut cell = ConfigCell::new();
    let config = Arc::new(sample_config());
    initialize(&mut cell, config.clone());
    assert!(cell.is_set());
    let handed = get_config(&cell);
    assert!(Arc::ptr_eq(&handed, &config));
    assert_eq!(handed.batch_size, 32);
    assert_eq!(handed.model_name, "model.json");
    assert_eq!(handed.mode, RunningMode::Training);
    assert_eq!(handed.backend, ComputeBackend::Cpu);
}
