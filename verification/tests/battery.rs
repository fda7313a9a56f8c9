use system_notifier::battery::{
    battery_notification, determine_notification_with_thresholds, format_battery_message,
    secs_to_hours, BatteryInfo, BatteryState,
};
use system_notifier::binary32::Binary32;
use system_notifier::common::{NotificationType, Urgency};
use system_notifier::config::Thresholds;

fn b(x: f32) -> Binary32 {
    Binary32(x.to_bits())
}

// Shorthand: the helper with the configured default thresholds (15/10/5).
fn notify_default(battery: &BatteryInfo) -> Option<(String, String, NotificationType)> {
    determine_notification_with_thresholds(battery, b(15.0), b(10.0), b(5.0))
}

#[test]
fn test_secs_to_hours_zero() {
    assert_eq!(secs_to_hours(0), "0:00:00");
}

#[test]
fn test_secs_to_hours_one_hour() {
    assert_eq!(secs_to_hours(3600), "1:00:00");
}

#[test]
fn test_secs_to_hours_complex() {
    assert_eq!(secs_to_hours(3661), "1:01:01");
    assert_eq!(secs_to_hours(7384), "2:03:04");
}

#[test]
fn test_secs_to_hours_minutes_only() {
    assert_eq!(secs_to_hours(90), "0:01:30");
    assert_eq!(secs_to_hours(600), "0:10:00");
}

#[test]
fn secs_to_hours_large_values() {
    assert_eq!(secs_to_hours(86399), "23:59:59");
    assert_eq!(secs_to_hours(360000), "100:00:00");
    assert_eq!(secs_to_hours(u64::MAX), "5124095576030431:00:15");
}

#[test]
fn test_format_battery_message_critical() {
    let msg = format_battery_message(&format!("{}", 5.0f32), Some(600), true);
    assert!(msg.contains("at 5%"));
    assert!(msg.contains("plug in"));
    assert!(msg.contains("0:10:00"));
}

#[test]
fn test_format_battery_message_non_critical() {
    let msg = format_battery_message(&format!("{}", 15.0f32), Some(3600), false);
    assert!(msg.contains("at 15%"));
    assert!(!msg.contains("plug in"));
    assert!(msg.contains("1:00:00"));
}

#[test]
fn test_format_battery_message_no_time() {
    let msg = format_battery_message(&format!("{}", 10.0f32), None, true);
    assert!(msg.contains("at 10%"));
    assert!(msg.contains("plug in"));
    assert!(!msg.contains("approximately"));
}

#[test]
fn format_battery_message_exact_text() {
    assert_eq!(
        format_battery_message("5", Some(600), true),
        "Your battery is at 5%, plug in your device or prepare for shutdown. \
         You have approximately 0:10:00 of power remaining."
    );
    assert_eq!(format_battery_message("12", None, false), "Your battery is at 12%.");
}

#[test]
fn test_determine_notification_plugged_in() {
    let battery = BatteryInfo { plugged_in: true, percent: b(5.0), time_remaining_secs: None };
    assert_eq!(notify_default(&battery), None);
}

#[test]
fn battery_test_determine_notification_critical() {
    let battery =
        BatteryInfo { plugged_in: false, percent: b(4.0), time_remaining_secs: Some(300) };
    let (title, message, notif_type) = notify_default(&battery).unwrap();
    assert_eq!(title, "Low battery warning");
    assert!(message.contains("at 4%"));
    assert_eq!(notif_type, NotificationType::Error);
}

#[test]
fn battery_test_determine_notification_very_low() {
    let battery =
        BatteryInfo { plugged_in: false, percent: b(8.0), time_remaining_secs: Some(600) };
    let (title, message, notif_type) = notify_default(&battery).unwrap();
    assert_eq!(title, "Low battery warning");
    assert!(message.contains("at 8%"));
    assert_eq!(notif_type, NotificationType::Info);
}

#[test]
fn battery_test_determine_notification_low() {
    let battery =
        BatteryInfo { plugged_in: false, percent: b(12.0), time_remaining_secs: Some(1800) };
    let (title, message, notif_type) = notify_default(&battery).unwrap();
    assert_eq!(title, "Low battery notice");
    assert!(message.contains("at 12%"));
    assert_eq!(notif_type, NotificationType::Info);
}

#[test]
fn battery_test_determine_notification_ok() {
    let battery =
        BatteryInfo { plugged_in: false, percent: b(50.0), time_remaining_secs: Some(7200) };
    assert_eq!(notify_default(&battery), None);
}

#[test]
fn test_determine_notification_at_threshold() {
    let battery_critical =
        BatteryInfo { plugged_in: false, percent: b(5.0), time_remaining_secs: Some(300) };
    assert!(notify_default(&battery_critical).is_some());

    let battery_very_low =
        BatteryInfo { plugged_in: false, percent: b(10.0), time_remaining_secs: Some(600) };
    assert!(notify_default(&battery_very_low).is_some());

    let battery_low =
        BatteryInfo { plugged_in: false, percent: b(15.0), time_remaining_secs: Some(1200) };
    assert!(notify_default(&battery_low).is_some());
}

#[test]
fn battery_test_determine_notification_custom_thresholds() {
    // Verify that custom thresholds from user config are respected.
    let battery = BatteryInfo { plugged_in: false, percent: b(18.0), time_remaining_secs: None };
    // With defaults (15/10/5), 18% triggers nothing.
    assert_eq!(notify_default(&battery), None);
    // With a user-raised low threshold of 20%, 18% triggers a notice.
    let result = determine_notification_with_thresholds(&battery, b(20.0), b(10.0), b(5.0));
    assert!(result.is_some());
    let (title, _, _) = result.unwrap();
    assert_eq!(title, "Low battery notice");
}

#[test]
fn test_battery_info_equality() {
    let battery1 =
        BatteryInfo { plugged_in: false, percent: b(50.0), time_remaining_secs: Some(3600) };
    let battery2 =
        BatteryInfo { plugged_in: false, percent: b(50.0), time_remaining_secs: Some(3600) };
    assert_eq!(battery1, battery2);
}

#[test]
fn battery_message_rounds_the_percentage() {
    let battery =
        BatteryInfo { plugged_in: false, percent: b(4.5), time_remaining_secs: Some(90) };
    let (_, message, _) = notify_default(&battery).unwrap();
    assert_eq!(
        message,
        "Your battery is at 5%, plug in your device or prepare for shutdown. \
         You have approximately 0:01:30 of power remaining."
    );
    let battery = BatteryInfo { plugged_in: false, percent: b(14.4), time_remaining_secs: None };
    let (title, message, kind) = notify_default(&battery).unwrap();
    assert_eq!(title, "Low battery notice");
    assert_eq!(message, "Your battery is at 14%.");
    assert_eq!(kind, NotificationType::Info);
}

#[test]
fn battery_nan_percent_never_notifies() {
    let battery =
        BatteryInfo { plugged_in: false, percent: b(f32::NAN), time_remaining_secs: None };
    assert_eq!(notify_default(&battery), None);
}

#[test]
fn battery_just_above_threshold() {
    // The comparisons are those of binary32 values, not of rounded ones.
    let above = f32::from_bits(15.0f32.to_bits() + 1);
    let battery = BatteryInfo { plugged_in: false, percent: b(above), time_remaining_secs: None };
    assert_eq!(notify_default(&battery), None);
}

#[test]
fn battery_consistent_over_many_levels() {
    for i in 0..=1000 {
        let percent = i as f32 / 10.0;
        let battery =
            BatteryInfo { plugged_in: false, percent: b(percent), time_remaining_secs: None };
        let result = notify_default(&battery);
        if percent <= 5.0 {
            assert_eq!(result.unwrap().2, NotificationType::Error);
        } else if percent > 15.0 {
            assert!(result.is_none());
        } else {
            assert!(result.is_some());
        }
        let plugged = BatteryInfo { plugged_in: true, ..battery };
        assert_eq!(notify_default(&plugged), None);
    }
}

#[test]
fn battery_notification_is_the_battery_monitors() {
    let t = Thresholds { low: b(15.0), very_low: b(10.0), critical: b(5.0) };
    let battery = BatteryInfo { plugged_in: false, percent: b(3.0), time_remaining_secs: None };
    let n = battery_notification(&battery, &t).unwrap();
    assert_eq!(n.summary, "Low battery warning");
    assert_eq!(n.appname, "Battery Monitor");
    assert_eq!(n.urgency, Urgency::Critical);
    assert_eq!(n.body, "Your battery is at 3%, plug in your device or prepare for shutdown.");
    let charging = BatteryInfo { plugged_in: true, ..battery };
    assert!(battery_notification(&charging, &t).is_none());
}

#[test]
fn from_reading_follows_the_state() {
    let charging = BatteryInfo::from_reading(BatteryState::Charging, b(42.0), Some(100));
    assert!(charging.plugged_in);
    assert_eq!(charging.time_remaining_secs, None);
    let full = BatteryInfo::from_reading(BatteryState::Full, b(100.0), None);
    assert!(full.plugged_in);
    let discharging = BatteryInfo::from_reading(BatteryState::Discharging, b(42.0), Some(100));
    assert!(!discharging.plugged_in);
    assert_eq!(discharging.time_remaining_secs, Some(100));
    assert_eq!(discharging.percent, b(42.0));
    let unknown = BatteryInfo::from_reading(BatteryState::Unknown, b(150.0), None);
    assert!(!unknown.plugged_in);
    assert_eq!(unknown.percent, b(100.0));
}

#[test]
fn from_reading_limits_the_percentage() {
    for x in [-5.0f32, 0.0, 0.5, 37.25, 99.99, 100.0, 100.5, 1e30, f32::INFINITY, f32::NEG_INFINITY, f32::NAN] {
        let info = BatteryInfo::from_reading(BatteryState::Discharging, b(x), None);
        assert_eq!(info.percent.0, x.min(100.0).max(0.0).to_bits(), "{}", x);
    }
}
