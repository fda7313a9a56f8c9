use system_notifier::common::{
    get_appname, get_icon, get_urgency, notify, notify_error, App, NotificationType, Timeout,
    Urgency,
};

#[test]
fn test_get_icon_info() {
    assert_eq!(get_icon(&NotificationType::Info), "info");
}

#[test]
fn test_get_icon_error() {
    assert_eq!(get_icon(&NotificationType::Error), "error");
}

#[test]
fn test_get_urgency_info() {
    assert_eq!(get_urgency(&NotificationType::Info), Urgency::Normal);
}

#[test]
fn test_get_urgency_error() {
    assert_eq!(get_urgency(&NotificationType::Error), Urgency::Critical);
}

#[test]
fn test_get_appname_battery() {
    assert_eq!(get_appname(&App::Battery), "Battery Monitor");
}

#[test]
fn test_get_appname_diskspace() {
    assert_eq!(get_appname(&App::DiskSpace), "Disk Space Monitor");
}

#[test]
fn test_icon_and_urgency_consistency() {
    // Info notifications should have normal urgency
    let info_icon = get_icon(&NotificationType::Info);
    let info_urgency = get_urgency(&NotificationType::Info);
    assert_eq!(info_icon, "info");
    assert_eq!(info_urgency, Urgency::Normal);

    // Error notifications should have critical urgency
    let error_icon = get_icon(&NotificationType::Error);
    let error_urgency = get_urgency(&NotificationType::Error);
    assert_eq!(error_icon, "error");
    assert_eq!(error_urgency, Urgency::Critical);
}

#[test]
fn test_appname_uniqueness() {
    // Each app should have a distinct name
    let battery_name = get_appname(&App::Battery);
    let diskspace_name = get_appname(&App::DiskSpace);
    assert_ne!(battery_name, diskspace_name);
}

#[test]
fn test_appname_non_empty() {
    assert!(!get_appname(&App::Battery).is_empty());
    assert!(!get_appname(&App::DiskSpace).is_empty());
}

#[test]
fn test_icon_non_empty() {
    assert!(!get_icon(&NotificationType::Info).is_empty());
    assert!(!get_icon(&NotificationType::Error).is_empty());
}

#[test]
fn test_notification_type_equality() {
    assert_eq!(NotificationType::Info, NotificationType::Info);
    assert_eq!(NotificationType::Error, NotificationType::Error);
    assert_ne!(NotificationType::Info, NotificationType::Error);
}

#[test]
fn test_app_equality() {
    assert_eq!(App::Battery, App::Battery);
    assert_eq!(App::DiskSpace, App::DiskSpace);
    assert_ne!(App::Battery, App::DiskSpace);
}

#[test]
fn notify_info_describes_the_notification() {
    let n = notify(NotificationType::Info, App::Battery, "Battery Low", "Battery level is below 15%");
    assert_eq!(n.summary, "Battery Low");
    assert_eq!(n.appname, "Battery Monitor");
    assert_eq!(n.body, "Battery level is below 15%");
    assert_eq!(n.icon, "info");
    assert_eq!(n.timeout, Timeout::Never);
    assert_eq!(n.urgency, Urgency::Normal);
    assert_eq!(n.category, "system");
}

#[test]
fn notify_error_is_critical() {
    let n = notify_error(App::DiskSpace, "Monitor Failed", "Failed to read disk information");
    assert_eq!(n.summary, "Monitor Failed");
    assert_eq!(n.appname, "Disk Space Monitor");
    assert_eq!(n.body, "Failed to read disk information");
    assert_eq!(n.icon, "error");
    assert_eq!(n.timeout, Timeout::Never);
    assert_eq!(n.urgency, Urgency::Critical);
    assert_eq!(n.category, "system");
}
