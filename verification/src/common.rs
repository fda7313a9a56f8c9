//! Notification kinds, applications, and the desktop notification that a
//! monitor shows.
//!
//! The library describes a notification completely ([`Notification`]);
//! showing it on the desktop is the caller's part.

use vstd::prelude::*;
use vstd::string::*;

verus! {

/// The type of notification to display.
///
/// Determines the urgency level and icon used for the notification.
#[derive(Debug, Clone, Copy, PartialEq, Eq, Structural)]
pub enum NotificationType {
    /// Informational notification (normal urgency)
    Info,
    /// Error notification (critical urgency)
    Error,
}

/// The application context for the notification.
///
/// Used to set the application name and customize notification appearance.
#[derive(Debug, Clone, Copy, PartialEq, Eq, Structural)]
pub enum App {
    /// Battery level monitor
    Battery,
    /// Disk space monitor
    DiskSpace,
}

/// The urgency levels of the freedesktop notification specification.
#[derive(Debug, Clone, Copy, PartialEq, Eq, Structural)]
pub enum Urgency {
    /// Low urgency
    Low,
    /// Normal urgency
    Normal,
    /// Critical urgency: the notification does not time out
    Critical,
}

/// When a notification expires.
#[derive(Debug, Clone, Copy, PartialEq, Eq, Structural)]
pub enum Timeout {
    /// As the notification server decides
    Default,
    /// Never: the user closes it
    Never,
    /// After this many milliseconds
    Milliseconds(u32),
}

/// A desktop notification, complete with everything the notification
/// server is sent.
#[derive(Debug, Clone)]
pub struct Notification {
    /// The title
    pub summary: String,
    /// The name of the sending application
    pub appname: String,
    /// The body text
    pub body: String,
    /// The icon name
    pub icon: String,
    /// When it expires
    pub timeout: Timeout,
    /// Its urgency
    pub urgency: Urgency,
    /// The value of its "category" hint
    pub category: String,
}

/// Whether a monitor runs, and with what settings.
#[derive(Debug)]
pub enum Plan<T> {
    /// The monitor is disabled: it checks nothing.
    Disabled,
    /// A setting that the check needs is missing.
    Incomplete,
    /// The monitor checks with these settings.
    Check(T),
}

/// The icon name of a notification type.
pub open spec fn icon_text(notification_type: NotificationType) -> Seq<char> {
    match notification_type {
        NotificationType::Info => seq!['i', 'n', 'f', 'o'],
        NotificationType::Error => seq!['e', 'r', 'r', 'o', 'r'],
    }
}

/// The urgency of a notification type.
pub open spec fn urgency_of(notification_type: NotificationType) -> Urgency {
    match notification_type {
        NotificationType::Info => Urgency::Normal,
        NotificationType::Error => Urgency::Critical,
    }
}

/// The application name of an application context.
pub open spec fn appname_text(app: App) -> Seq<char> {
    match app {
        App::Battery => seq!['B', 'a', 't', 't', 'e', 'r', 'y', ' ', 'M', 'o', 'n', 'i', 't', 'o', 'r'],
        App::DiskSpace => seq![
            'D', 'i', 's', 'k', ' ', 'S', 'p', 'a', 'c', 'e', ' ', 'M', 'o', 'n', 'i', 't', 'o', 'r',
        ],
    }
}

/// The category hint that every notification carries.
pub open spec fn system_category() -> Seq<char> {
    seq!['s', 'y', 's', 't', 'e', 'm']
}

impl Notification {
    /// This is the notification of the given type, application, title and
    /// body: the icon and urgency follow the type, the application name
    /// follows the application, it stays on screen until dismissed, and its
    /// category is "system".
    pub open spec fn describes(
        self,
        notification_type: NotificationType,
        app: App,
        title: Seq<char>,
        body: Seq<char>,
    ) -> bool {
        &&& self.summary@ == title
        &&& self.appname@ == appname_text(app)
        &&& self.body@ == body
        &&& self.icon@ == icon_text(notification_type)
        &&& self.timeout == Timeout::Never
        &&& self.urgency == urgency_of(notification_type)
        &&& self.category@ == system_category()
    }
}

/// What a notification (title, message, type) says.
pub open spec fn alert_view(a: Option<(String, String, NotificationType)>) -> Option<
    (Seq<char>, Seq<char>, NotificationType),
> {
    match a {
        Some((title, message, notification_type)) => Some((title@, message@, notification_type)),
        None => None,
    }
}

/// Returns the icon name for a notification type.
///
/// * `"info"` for Info notifications
/// * `"error"` for Error notifications
pub fn get_icon(notification_type: &NotificationType) -> (r: &'static str)
    ensures
        r@ == icon_text(*notification_type),
{
    match notification_type {
        NotificationType::Info => {
            proof { reveal_strlit("info"); }
            "info"
        },
        NotificationType::Error => {
            proof { reveal_strlit("error"); }
            "error"
        },
    }
}

/// Returns the urgency level for a notification type.
///
/// * `Urgency::Normal` for Info notifications
/// * `Urgency::Critical` for Error notifications
pub fn get_urgency(notification_type: &NotificationType) -> (r: Urgency)
    ensures
        r == urgency_of(*notification_type),
{
    match notification_type {
        NotificationType::Info => Urgency::Normal,
        NotificationType::Error => Urgency::Critical,
    }
}

/// Returns the application name for a given app context.
///
/// * `"Battery Monitor"` for Battery
/// * `"Disk Space Monitor"` for DiskSpace
pub fn get_appname(app: &App) -> (r: &'static str)
    ensures
        r@ == appname_text(*app),
{
    match app {
        App::Battery => {
            proof { reveal_strlit("Battery Monitor"); }
            "Battery Monitor"
        },
        App::DiskSpace => {
            proof { reveal_strlit("Disk Space Monitor"); }
            "Disk Space Monitor"
        },
    }
}

/// The desktop notification with the given type, application, title and
/// body.
///
/// - Info notifications use normal urgency and the "info" icon
/// - Error notifications use critical urgency and the "error" icon
/// - All notifications remain on screen until dismissed
/// - Notifications are categorized as "system" notifications
pub fn notify(notification_type: NotificationType, app: App, title: &str, body: &str) -> (r:
    Notification)
    ensures
        r.describes(notification_type, app, title@, body@),
        r.summary@ == title@,
        r.body@ == body@,
        r.timeout == Timeout::Never,
        r.category@ == seq!['s', 'y', 's', 't', 'e', 'm'],
        r.urgency == (if notification_type == NotificationType::Error {
            Urgency::Critical
        } else {
            Urgency::Normal
        }),
        r.icon@ == (if notification_type == NotificationType::Error {
            seq!['e', 'r', 'r', 'o', 'r']
        } else {
            seq!['i', 'n', 'f', 'o']
        }),
{
    let icon = get_icon(&notification_type);
    let urgency = get_urgency(&notification_type);
    let appname = get_appname(&app);
    let category = "system";
    proof { reveal_strlit("system"); }
    let summary = String::from_str(title);
    assert(summary@ == title@);
    let r = Notification {
        summary,
        appname: String::from_str(appname),
        body: String::from_str(body),
        icon: String::from_str(icon),
        timeout: Timeout::Never,
        urgency,
        category: String::from_str(category),
    };
    assert(r.appname@ == appname_text(app));
    assert(r.icon@ == icon_text(notification_type));
    assert(r.category@ == system_category());
    r
}

/// The error notification (critical urgency) with the given application,
/// title and message: [`notify`] with [`NotificationType::Error`].
pub fn notify_error(app: App, title: &str, message: &str) -> (r: Notification)
    ensures
        r.describes(NotificationType::Error, app, title@, message@),
{
    notify(NotificationType::Error, app, title, message)
}

/// A notification described for a type, application, title and body shows
/// that title and body, stays on screen until dismissed, is in the "system"
/// category, carries the application's name, and is critical, with the
/// "error" icon, exactly for an error.
pub proof fn described_notification_shows(
    n: Notification,
    notification_type: NotificationType,
    app: App,
    title: Seq<char>,
    body: Seq<char>,
)
    requires
        n.describes(notification_type, app, title, body),
    ensures
        n.summary@ == title,
        n.body@ == body,
        n.timeout == Timeout::Never,
        n.category@ == seq!['s', 'y', 's', 't', 'e', 'm'],
        (n.urgency == Urgency::Critical) == (notification_type == NotificationType::Error),
        (n.urgency == Urgency::Normal) == (notification_type == NotificationType::Info),
        n.icon@ == (if notification_type == NotificationType::Error {
            seq!['e', 'r', 'r', 'o', 'r']
        } else {
            seq!['i', 'n', 'f', 'o']
        }),
        app == App::Battery ==> n.appname@ == seq![
            'B', 'a', 't', 't', 'e', 'r', 'y', ' ', 'M', 'o', 'n', 'i', 't', 'o', 'r',
        ],
        app == App::DiskSpace ==> n.appname@ == seq![
            'D', 'i', 's', 'k', ' ', 'S', 'p', 'a', 'c', 'e', ' ', 'M', 'o', 'n', 'i', 't', 'o', 'r',
        ],
{
}

/// Info notifications have normal urgency and the "info" icon; error
/// notifications have critical urgency and the "error" icon.
pub proof fn icon_and_urgency_agree(notification_type: NotificationType)
    ensures
        (notification_type == NotificationType::Error) == (urgency_of(notification_type)
            == Urgency::Critical),
        (urgency_of(notification_type) == Urgency::Critical) == (icon_text(notification_type)
            == seq!['e', 'r', 'r', 'o', 'r']),
        (urgency_of(notification_type) == Urgency::Normal) == (icon_text(notification_type)
            == seq!['i', 'n', 'f', 'o']),
{
    assert(seq!['e', 'r', 'r', 'o', 'r'] != seq!['i', 'n', 'f', 'o']) by {
        assert(seq!['e', 'r', 'r', 'o', 'r'].len() != seq!['i', 'n', 'f', 'o'].len());
    }
}

/// Each application has its own name, and no name is empty.
pub proof fn appnames_distinct_and_non_empty(a: App, b: App)
    ensures
        appname_text(a).len() > 0,
        (appname_text(a) == appname_text(b)) == (a == b),
{
    if a != b {
        assert(appname_text(a).len() != appname_text(b).len());
    }
}

/// No icon name is empty.
pub proof fn icons_non_empty(notification_type: NotificationType)
    ensures
        icon_text(notification_type).len() > 0,
{
}

} // verus!
