//! Device-level generation and the configuration hooks.

use gateway_config::device::{Device, TracingConfig};
use gateway_config::driver::SeededDriver;
use gateway_config::schema::{GatewayConfig, apply_config, validate_config};

#[test]
fn test_tracing_config_generation() {
    for seed in 0..200u64 {
        let mut d = SeededDriver::new(seed);
        let t = TracingConfig::generate(&mut d).unwrap();
        assert!((0..=5).contains(&t.default));
        assert!((1..=10).contains(&t.taglevel.len()));
        let mut keys: Vec<&str> = Vec::new();
        for (tag, level) in &t.taglevel {
            assert!(!keys.contains(&tag.as_str()));
            keys.push(tag.as_str());
            assert!(!tag.is_empty());
            assert!((0..=5).contains(level));
        }
    }
}

#[test]
fn test_device_generation() {
    for seed in 0..100u64 {
        let mut d = SeededDriver::new(seed);
        let device = Device::generate(&mut d).unwrap();
        assert!(device.tracing.is_some());
    }
}

#[test]
fn test_config_hooks() {
    let config = GatewayConfig { generation: 228 };
    assert!(validate_config(&config));
    assert!(apply_config(&config).is_ok());
}
