use system_notifier::binary32::Binary32;
use system_notifier::common::{NotificationType, Urgency};
use system_notifier::config::Thresholds;
use system_notifier::diskspace::{
    bytes_to_human, determine_notification_with_thresholds, disk_space_info,
    diskspace_notification, format_diskspace_message, DiskSpaceInfo, MountedDisk, DEFAULT_PATHS,
};

fn b(x: f32) -> Binary32 {
    Binary32(x.to_bits())
}

// Shorthand: the helper with the configured default thresholds (90/95/97.5).
fn notify_default(info: &DiskSpaceInfo) -> Option<(String, String, NotificationType)> {
    determine_notification_with_thresholds(info, b(90.0), b(95.0), b(97.5))
}

fn disk_info(percent_used: f32) -> DiskSpaceInfo {
    let total = 100_000_000_000u64;
    let used = (total as f32 * percent_used / 100.0) as u64;
    DiskSpaceInfo {
        path: "/".to_string(),
        total_bytes: total,
        used_bytes: used,
        available_bytes: total.saturating_sub(used),
        percent_used: b(percent_used),
    }
}

/// The same conversion computed with binary32 arithmetic.
fn bytes_to_human_with_floats(bytes: u64) -> String {
    let symbols = ['K', 'M', 'G', 'T', 'P', 'E'];
    if bytes < 1024 {
        return format!("{}B", bytes);
    }
    for i in (0..6).rev() {
        let unit = 1u64 << (10 * (i + 1));
        if bytes >= unit {
            let value = bytes as f32 / unit as f32;
            return format!("{:.1}{}", value, symbols[i]);
        }
    }
    format!("{}B", bytes)
}

#[test]
fn test_bytes_to_human_zero() {
    assert_eq!(bytes_to_human(0), "0B");
}

#[test]
fn test_bytes_to_human_bytes() {
    assert_eq!(bytes_to_human(500), "500B");
}

#[test]
fn test_bytes_to_human_kilobytes() {
    assert_eq!(bytes_to_human(10000), "9.8K");
}

#[test]
fn test_bytes_to_human_megabytes() {
    assert_eq!(bytes_to_human(100001221), "95.4M");
}

#[test]
fn test_bytes_to_human_gigabytes() {
    assert_eq!(bytes_to_human(5368709120), "5.0G");
}

#[test]
fn test_bytes_to_human_exact_units() {
    assert_eq!(bytes_to_human(1024), "1.0K");
    assert_eq!(bytes_to_human(1048576), "1.0M");
    assert_eq!(bytes_to_human(1073741824), "1.0G");
}

#[test]
fn bytes_to_human_edges() {
    assert_eq!(bytes_to_human(1023), "1023B");
    assert_eq!(bytes_to_human(1280), "1.2K"); // 1.25 rounds to even
    assert_eq!(bytes_to_human(1331), "1.3K");
    assert_eq!(bytes_to_human(1048575), "1024.0K");
    assert_eq!(bytes_to_human((1 << 30) - 1), "1024.0M"); // rounds up in binary32
    assert_eq!(bytes_to_human(u64::MAX), "16.0E");
    assert_eq!(bytes_to_human(1 << 60), "1.0E");
}

#[test]
fn bytes_to_human_agrees_with_binary32_arithmetic() {
    let mut values: Vec<u64> = Vec::new();
    for shift in 0..64u32 {
        let p = 1u64 << shift;
        for delta in [0u64, 1, 2, 3, 7, 51, 52, 100, 1000] {
            values.push(p.wrapping_add(delta));
            values.push(p.wrapping_sub(delta));
            values.push(p.wrapping_add(p / 20).wrapping_add(delta));
            values.push(p.wrapping_add(p / 4).wrapping_add(delta));
            values.push(p.wrapping_add(3 * (p / 4)).wrapping_sub(delta));
        }
    }
    let mut x: u64 = 0x9E37_79B9_7F4A_7C15;
    for _ in 0..20000 {
        x ^= x << 13;
        x ^= x >> 7;
        x ^= x << 17;
        values.push(x >> (x % 64));
    }
    for v in values {
        assert_eq!(bytes_to_human(v), bytes_to_human_with_floats(v), "bytes {}", v);
    }
}

#[test]
fn test_format_diskspace_message() {
    let msg = format_diskspace_message(&disk_info(90.0));
    assert!(msg.contains("/"));
    assert!(msg.contains("90.0%"));
    assert!(msg.contains("full"));
}

#[test]
fn format_diskspace_message_exact_text() {
    let info = DiskSpaceInfo {
        path: "/home".to_string(),
        total_bytes: 1 << 30,
        used_bytes: 3 << 28,
        available_bytes: 1 << 28,
        percent_used: b(75.0),
    };
    assert_eq!(
        format_diskspace_message(&info),
        "/home is 75.0% full, only 256.0M of 1.0G remains unused."
    );
}

#[test]
fn diskspace_test_determine_notification_ok() {
    assert_eq!(notify_default(&disk_info(50.0)), None);
}

#[test]
fn diskspace_test_determine_notification_low() {
    let (title, message, notif_type) = notify_default(&disk_info(91.0)).unwrap();
    assert_eq!(title, "Low disk space notice");
    assert!(message.contains("91.0%"));
    assert_eq!(notif_type, NotificationType::Info);
}

#[test]
fn diskspace_test_determine_notification_very_low() {
    let (title, message, notif_type) = notify_default(&disk_info(96.0)).unwrap();
    assert_eq!(title, "Low disk space warning");
    assert!(message.contains("96.0%"));
    assert_eq!(notif_type, NotificationType::Info);
}

#[test]
fn diskspace_test_determine_notification_critical() {
    let (title, message, notif_type) = notify_default(&disk_info(98.0)).unwrap();
    assert_eq!(title, "Disk space critical");
    assert!(message.contains("98.0%"));
    assert_eq!(notif_type, NotificationType::Error);
}

#[test]
fn test_determine_notification_at_thresholds() {
    assert!(notify_default(&disk_info(90.0)).is_some());
    assert!(notify_default(&disk_info(95.0)).is_some());
    assert!(notify_default(&disk_info(97.5)).is_some());
}

#[test]
fn diskspace_test_determine_notification_custom_thresholds() {
    // With defaults, 88% triggers nothing.
    assert_eq!(notify_default(&disk_info(88.0)), None);
    // With a user-lowered low threshold of 85%, 88% triggers a notice.
    let result = determine_notification_with_thresholds(&disk_info(88.0), b(85.0), b(92.0), b(96.0));
    assert!(result.is_some());
    let (title, _, _) = result.unwrap();
    assert_eq!(title, "Low disk space notice");
}

#[test]
fn test_diskspace_info_equality() {
    assert_eq!(disk_info(50.0), disk_info(50.0));
}

#[test]
fn test_default_paths() {
    assert_eq!(DEFAULT_PATHS, &["/", "/home"]);
}

#[test]
fn diskspace_consistent_over_many_levels() {
    for i in 0..=1000 {
        let percent = i as f32 / 10.0;
        let result = notify_default(&disk_info(percent));
        if percent >= 97.5 {
            assert_eq!(result.unwrap().2, NotificationType::Error);
        } else if percent < 90.0 {
            assert!(result.is_none());
        } else {
            assert!(result.is_some());
        }
    }
}

#[test]
fn diskspace_notification_is_the_disk_monitors() {
    let t = Thresholds { low: b(90.0), very_low: b(95.0), critical: b(97.5) };
    let n = diskspace_notification(&disk_info(99.0), &t).unwrap();
    assert_eq!(n.summary, "Disk space critical");
    assert_eq!(n.appname, "Disk Space Monitor");
    assert_eq!(n.urgency, Urgency::Critical);
    assert_eq!(n.icon, "error");
    assert!(n.body.starts_with("/ is 99.0% full, only "));
    assert!(diskspace_notification(&disk_info(10.0), &t).is_none());
}

#[test]
fn from_space_computes_the_percentage_in_binary32() {
    let mut cases: Vec<(u64, u64)> = vec![
        (0, 0),
        (0, 5),
        (1, 0),
        (1, 1),
        (100, 0),
        (100, 100),
        (100, 200),
        (3, 1),
        (u64::MAX, 0),
        (u64::MAX, 1),
        (u64::MAX, u64::MAX),
        (100_000_000_000, 10_000_000_000),
        (1 << 40, (1 << 40) - 1),
    ];
    let mut x: u64 = 0x2545_F491_4F6C_DD1D;
    for _ in 0..50000 {
        x ^= x << 13;
        x ^= x >> 7;
        x ^= x << 17;
        let total = x >> (x % 64);
        x ^= x << 13;
        x ^= x >> 7;
        x ^= x << 17;
        let available = if total == 0 { x % 3 } else { x % (total + (total >> 3) + 1) };
        cases.push((total, available));
    }
    for (total, available) in cases {
        let info = DiskSpaceInfo::from_space("/data", total, available);
        let used = total.saturating_sub(available);
        let percent = if total > 0 { (used as f32 / total as f32) * 100.0 } else { 0.0 };
        assert_eq!(info.path, "/data");
        assert_eq!(info.total_bytes, total);
        assert_eq!(info.available_bytes, available);
        assert_eq!(info.used_bytes, used);
        assert_eq!(info.percent_used.0, percent.to_bits(), "total {} available {}", total, available);
    }
}

fn mounted(mount_point: &str, total_bytes: u64, available_bytes: u64) -> MountedDisk {
    MountedDisk { mount_point: mount_point.to_string(), total_bytes, available_bytes }
}

#[test]
fn disk_space_info_takes_the_disk_containing_the_path() {
    let disks = vec![
        mounted("/boot", 1_000, 900),
        mounted("/home", 4_000, 1_000),
        mounted("/", 2_000, 500),
    ];
    let info = disk_space_info("/home/user", true, &disks).unwrap();
    assert_eq!(info.path, "/home/user");
    assert_eq!(info.total_bytes, 4_000);
    assert_eq!(info.available_bytes, 1_000);
    assert_eq!(info.used_bytes, 3_000);
    assert_eq!(info.percent_used, b(75.0));
    assert_eq!(info.percent_used.0, DiskSpaceInfo::from_space("/home/user", 4_000, 1_000).percent_used.0);

    // "/" holds everything, but "/home" is the deeper mount point, whatever
    // the order of the list.
    let disks = vec![mounted("/", 2_000, 500), mounted("/home", 4_000, 1_000)];
    let info = disk_space_info("/home/user", true, &disks).unwrap();
    assert_eq!(info.total_bytes, 4_000);
    assert_eq!(disk_space_info("/home", true, &disks).unwrap().total_bytes, 4_000);
    assert_eq!(disk_space_info("/etc", true, &disks).unwrap().total_bytes, 2_000);

    // Nested mount points: the deepest one that holds the path.
    let disks = vec![
        mounted("/", 1, 0),
        mounted("/home/user/data", 3, 0),
        mounted("/home", 2, 0),
    ];
    assert_eq!(disk_space_info("/home/user/data/x", true, &disks).unwrap().total_bytes, 3);
    assert_eq!(disk_space_info("/home/user/docs", true, &disks).unwrap().total_bytes, 2);

    // Of equally deep mount points, the first listed.
    let disks = vec![mounted("/", 1, 0), mounted("/home", 2, 0), mounted("/home/", 5, 0)];
    assert_eq!(disk_space_info("/home/a", true, &disks).unwrap().total_bytes, 2);
}

#[test]
fn disk_space_info_compares_whole_components() {
    let disks = vec![mounted("/home", 4_000, 1_000), mounted("/", 2_000, 500)];
    // "/homework" is not under "/home".
    let info = disk_space_info("/homework", true, &disks).unwrap();
    assert_eq!(info.total_bytes, 2_000);
    assert_eq!(info.path, "/homework");
    // The mount point itself is held.
    assert_eq!(disk_space_info("/home", true, &disks).unwrap().total_bytes, 4_000);
    assert_eq!(disk_space_info("/home/", true, &disks).unwrap().total_bytes, 4_000);
}

#[test]
fn disk_space_info_without_a_holding_disk_is_none() {
    let disks = vec![mounted("/boot", 1_000, 900), mounted("/home", 4_000, 1_000)];
    assert!(disk_space_info("/var/log", true, &disks).is_none());
    assert!(disk_space_info("relative/path", true, &disks).is_none());
    assert!(disk_space_info("/", true, &[]).is_none());
}

#[test]
fn disk_space_info_of_a_missing_path_is_none() {
    let disks = vec![mounted("/", 2_000, 500), mounted("/home", 4_000, 1_000)];
    assert!(disk_space_info("/no/such/dir", false, &disks).is_none());
    assert!(disk_space_info("/home/user", false, &disks).is_none());
    assert!(disk_space_info("/no/such/dir", true, &disks).is_some());
}
