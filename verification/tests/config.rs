use system_notifier::binary32::Binary32;
use system_notifier::common::Plan;
use system_notifier::config::{
    candidate_paths, first_existing, BatteryConfig, BatteryThreshold, Config, DiskConfig,
    DiskThreshold,
};

fn b(x: f32) -> Binary32 {
    Binary32(x.to_bits())
}

#[test]
fn test_default_battery_values() {
    let cfg = Config::default();
    let battery = cfg.battery.unwrap();
    let t = battery.thresholds.unwrap();
    assert_eq!(t.low, Some(b(15.0)));
    assert_eq!(t.very_low, Some(b(10.0)));
    assert_eq!(t.critical, Some(b(5.0)));
    assert_eq!(battery.disabled, Some(false));
}

#[test]
fn test_default_diskspace_values() {
    let cfg = Config::default();
    let disk = cfg.diskspace.unwrap();
    let t = disk.thresholds.unwrap();
    assert_eq!(t.low, Some(b(90.0)));
    assert_eq!(t.very_low, Some(b(95.0)));
    assert_eq!(t.critical, Some(b(97.5)));
    assert_eq!(disk.disabled, Some(false));
    assert_eq!(disk.paths, Some(vec!["/".to_string()]));
}

#[test]
fn test_merge_fills_missing_battery_section() {
    // No battery section at all — should be populated from defaults.
    let partial = Config { battery: None, diskspace: None };
    let merged = partial.merge_with_default();
    let t = merged.battery.unwrap().thresholds.unwrap();
    assert_eq!(t.low, Some(b(15.0)));
}

#[test]
fn test_merge_preserves_disabled_and_fills_thresholds() {
    // User sets disabled but omits thresholds entirely.
    let partial = Config {
        battery: Some(BatteryConfig { disabled: Some(true), thresholds: None }),
        diskspace: None,
    };
    let merged = partial.merge_with_default();
    let battery = merged.battery.unwrap();
    assert_eq!(battery.disabled, Some(true)); // user value kept
    let t = battery.thresholds.unwrap();
    assert_eq!(t.low, Some(b(15.0))); // filled from defaults
    assert_eq!(t.very_low, Some(b(10.0)));
    assert_eq!(t.critical, Some(b(5.0)));
}

#[test]
fn test_merge_preserves_partial_threshold_override() {
    // User sets only `low`; the other two come from defaults.
    let partial = Config {
        battery: Some(BatteryConfig {
            disabled: None,
            thresholds: Some(BatteryThreshold { low: Some(b(25.0)), very_low: None, critical: None }),
        }),
        diskspace: None,
    };
    let merged = partial.merge_with_default();
    let t = merged.battery.unwrap().thresholds.unwrap();
    assert_eq!(t.low, Some(b(25.0))); // user override
    assert_eq!(t.very_low, Some(b(10.0))); // from defaults
    assert_eq!(t.critical, Some(b(5.0))); // from defaults
}

#[test]
fn merge_keeps_user_disk_settings() {
    let partial = Config {
        battery: None,
        diskspace: Some(DiskConfig {
            paths: Some(vec!["/".to_string(), "/home".to_string()]),
            thresholds: Some(DiskThreshold { low: Some(b(85.0)), very_low: None, critical: Some(b(96.0)) }),
            disabled: None,
        }),
    };
    let merged = partial.merge_with_default();
    let d = merged.diskspace.unwrap();
    assert_eq!(d.paths, Some(vec!["/".to_string(), "/home".to_string()]));
    let t = d.thresholds.unwrap();
    assert_eq!(t.low, Some(b(85.0)));
    assert_eq!(t.very_low, Some(b(95.0)));
    assert_eq!(t.critical, Some(b(96.0)));
    assert_eq!(d.disabled, Some(false));
}

#[test]
fn resolve_without_a_file_is_the_default() {
    let c = Config::resolve(None);
    assert_eq!(c.battery.unwrap().thresholds.unwrap().low, Some(b(15.0)));
    let c = Config::resolve(Some(Config {
        battery: Some(BatteryConfig { disabled: Some(true), thresholds: None }),
        diskspace: None,
    }));
    assert_eq!(c.battery.unwrap().disabled, Some(true));
    assert_eq!(c.diskspace.unwrap().paths, Some(vec!["/".to_string()]));
}

#[test]
fn candidate_paths_in_search_order() {
    assert_eq!(
        candidate_paths("/home/ada"),
        vec![
            "/home/ada/.config/system-monitor.toml".to_string(),
            "/home/ada/.config/system-monitor/config.toml".to_string(),
            "/home/ada/.system-monitor.toml".to_string(),
        ]
    );
}

#[test]
fn plans_follow_the_configuration() {
    let cfg = Config::default();
    match cfg.battery.unwrap().plan() {
        Plan::Check(t) => {
            assert_eq!(t.low, b(15.0));
            assert_eq!(t.critical, b(5.0));
        }
        _ => panic!("the default battery configuration checks"),
    }
    match cfg.diskspace.as_ref().unwrap().plan() {
        Plan::Check((paths, t)) => {
            assert_eq!(paths, vec!["/".to_string()]);
            assert_eq!(t.critical, b(97.5));
        }
        _ => panic!("the default disk configuration checks"),
    }
    let disabled = BatteryConfig { disabled: Some(true), thresholds: None };
    assert!(matches!(disabled.plan(), Plan::Disabled));
    let partial = BatteryConfig {
        disabled: None,
        thresholds: Some(BatteryThreshold { low: Some(b(20.0)), very_low: None, critical: None }),
    };
    assert!(matches!(partial.plan(), Plan::Incomplete));
    let no_paths = DiskConfig { paths: None, thresholds: None, disabled: Some(false) };
    assert!(matches!(no_paths.plan(), Plan::Incomplete));
}

#[test]
fn first_existing_finds_the_first_true() {
    assert_eq!(first_existing(&[false, true, true]), Some(1));
    assert_eq!(first_existing(&[true, false, true]), Some(0));
    assert_eq!(first_existing(&[false, false, false]), None);
    assert_eq!(first_existing(&[]), None);
}
