//! Battery level monitoring: the notification that a battery reading calls
//! for under the configured thresholds.

use vstd::prelude::*;
use vstd::string::*;
use crate::binary32::{Binary32, lemma_percentage_shown_at_most_100};
use crate::common::{alert_view, notify, App, Notification, NotificationType};
use crate::config::Thresholds;
use crate::text::{decimal, digit, two_digits, push_decimal, push_two_digits, lemma_decimal_non_empty, lemma_two_digits_len};

verus! {

/// Battery information
#[derive(Debug, Clone, PartialEq)]
pub struct BatteryInfo {
    /// Whether the battery is plugged in
    pub plugged_in: bool,
    /// Battery percentage (0.0 to 100.0)
    pub percent: Binary32,
    /// Estimated time remaining in seconds (None if charging or unavailable)
    pub time_remaining_secs: Option<u64>,
}

/// The charging state of a battery, as the operating system reports it.
#[derive(Debug, Clone, Copy, PartialEq, Eq, Structural)]
pub enum BatteryState {
    Unknown,
    Charging,
    Discharging,
    Empty,
    Full,
}

impl BatteryInfo {
    /// The percentage is from 0 to 100, as documented for the field (the
    /// reading of the battery is limited to that range).
    pub open spec fn well_formed(self) -> bool {
        self.percent.is_percentage()
    }

    /// The battery information of a reading: the battery is plugged in when
    /// it is charging or full; the charge is limited to 0 to 100 percent;
    /// the time remaining is known only while the battery is not plugged
    /// in.
    pub fn from_reading(
        state: BatteryState,
        charge_percent: Binary32,
        time_to_empty_secs: Option<u64>,
    ) -> (r: BatteryInfo)
        ensures
            r.plugged_in == (state == BatteryState::Charging || state == BatteryState::Full),
            r.percent == charge_percent.clamped_percentage(),
            r.time_remaining_secs == (if r.plugged_in {
                None
            } else {
                time_to_empty_secs
            }),
            r.well_formed(),
    {
        let plugged_in = match state {
            BatteryState::Charging | BatteryState::Full => true,
            _ => false,
        };
        let percent = charge_percent.clamp_percentage();
        let time_remaining_secs = if !plugged_in {
            time_to_empty_secs
        } else {
            None
        };
        BatteryInfo { plugged_in, percent, time_remaining_secs }
    }
}

/// A well-formed battery reading shows its percentage rounded to a whole
/// number of at most 100.
pub proof fn well_formed_percentage_shown_at_most_100(battery: BatteryInfo)
    requires
        battery.well_formed(),
    ensures
        battery.percent.display_magnitude() == battery.percent.rounded_magnitude(),
        battery.percent.rounded_magnitude() <= 100,
{
    lemma_percentage_shown_at_most_100(battery.percent);
}

/// `secs` as hours, minutes and seconds: "H:MM:SS".
pub open spec fn hours_text(secs: nat) -> Seq<char> {
    decimal(secs / 3600) + seq![':'] + two_digits((secs % 3600) / 60) + seq![':'] + two_digits(
        secs % 60,
    )
}

/// The time text is never empty and separates hours, minutes and seconds
/// with colons: minutes and seconds take two digits each.
pub proof fn hours_text_shape(secs: nat)
    ensures
        hours_text(secs).len() >= 7,
        hours_text(secs)[hours_text(secs).len() - 3] == ':',
        hours_text(secs)[hours_text(secs).len() - 6] == ':',
        (secs % 3600) / 60 < 60,
        secs % 60 < 60,
        (secs / 3600) * 3600 + ((secs % 3600) / 60) * 60 + secs % 60 == secs,
{
    let h = decimal(secs / 3600);
    lemma_decimal_non_empty(secs / 3600);
    assert((secs % 3600) / 60 < 60);
    lemma_two_digits_len(((secs % 3600) / 60) as nat);
    lemma_two_digits_len(secs % 60);
    let t = hours_text(secs);
    assert(t == h + seq![':'] + two_digits((secs % 3600) / 60) + seq![':'] + two_digits(secs % 60));
    assert(t[t.len() - 3] == ':');
    assert(t[t.len() - 6] == ':');
}

/// The time text reads back as the time: hours, minutes below 60 and
/// seconds below 60 are written as hours, two-digit minutes and two-digit
/// seconds, separated by colons.
pub proof fn hours_text_of_parts(h: nat, m: nat, s: nat)
    requires
        m < 60,
        s < 60,
    ensures
        hours_text(h * 3600 + m * 60 + s) == decimal(h) + seq![':'] + seq![
            digit((m / 10) as int),
            digit((m % 10) as int),
        ] + seq![':'] + seq![digit((s / 10) as int), digit((s % 10) as int)],
{
    let secs = h * 3600 + m * 60 + s;
    assert(secs / 3600 == h && (secs % 3600) / 60 == m && secs % 60 == s) by (nonlinear_arith)
        requires
            secs == h * 3600 + m * 60 + s,
            m < 60,
            s < 60,
    ;
    lemma_two_digits_are_digits(m);
    lemma_two_digits_are_digits(s);
}

/// A number below 100, padded to two digits, is its tens digit and its
/// units digit.
pub proof fn lemma_two_digits_are_digits(n: nat)
    requires
        n < 100,
    ensures
        two_digits(n) == seq![digit((n / 10) as int), digit((n % 10) as int)],
{
    if n >= 10 {
        assert(decimal(n / 10) == seq![digit((n / 10) as int)]);
    }
    assert(two_digits(n) =~= seq![digit((n / 10) as int), digit((n % 10) as int)]);
}

/// Formats seconds into hours:minutes:seconds format ("H:MM:SS").
pub fn secs_to_hours(secs: u64) -> (r: String)
    ensures
        r@ == hours_text(secs as nat),
{
    let hours = secs / 3600;
    let minutes = (secs % 3600) / 60;
    let seconds = secs % 60;
    let mut r = String::new();
    push_decimal(&mut r, hours as u128);
    proof { reveal_strlit(":"); }
    r.append(":");
    push_two_digits(&mut r, minutes as u128);
    r.append(":");
    push_two_digits(&mut r, seconds as u128);
    proof {
        assert(r@ =~= hours_text(secs as nat));
    }
    r
}


/// The battery message: the percentage (as `percentage` writes it), the
/// call to plug in when the level is critical, the time remaining when it
/// is known, and a closing period.
pub open spec fn battery_message(
    percentage: Seq<char>,
    time_remaining: Option<u64>,
    is_critical: bool,
) -> Seq<char> {
    "Your battery is at "@ + percentage + "%"@ + (if is_critical {
        ", plug in your device or prepare for shutdown"@
    } else {
        Seq::empty()
    }) + (match time_remaining {
        Some(secs) => ". You have approximately "@ + hours_text(secs as nat)
            + " of power remaining"@,
        None => Seq::empty(),
    }) + "."@
}

/// Formats the battery notification message.
///
/// * `percentage` - The battery percentage, as it is to be shown
/// * `time_remaining` - Optional time remaining in seconds
/// * `is_critical` - Whether this is a critical level notification
pub fn format_battery_message(
    percentage: &str,
    time_remaining: Option<u64>,
    is_critical: bool,
) -> (r: String)
    ensures
        r@ == battery_message(percentage@, time_remaining, is_critical),
{
    let mut message = String::from_str("Your battery is at ");
    message.append(percentage);
    message.append("%");
    if is_critical {
        message.append(", plug in your device or prepare for shutdown");
    }
    if let Some(secs) = time_remaining {
        message.append(". You have approximately ");
        let hours = secs_to_hours(secs);
        message.append(hours.as_str());
        message.append(" of power remaining");
    }
    message.append(".");
    proof {
        assert(message@ =~= battery_message(percentage@, time_remaining, is_critical));
    }
    message
}

/// The notification (title, message, type) that a battery reading calls
/// for under the thresholds `low`, `very_low` and `critical`, compared as
/// binary32 values: none while plugged in; at or below `critical` an error,
/// else at or below `very_low` a warning, else at or below `low` a notice,
/// else none.  The message shows the percentage rounded to a whole number.
pub open spec fn battery_alert(
    battery: BatteryInfo,
    low: Binary32,
    very_low: Binary32,
    critical: Binary32,
) -> Option<(Seq<char>, Seq<char>, NotificationType)> {
    let percent = battery.percent;
    let shown = percent.whole_text();
    let time = battery.time_remaining_secs;
    if battery.plugged_in {
        None
    } else if percent.is_at_most(critical) {
        Some(("Low battery warning"@, battery_message(shown, time, true), NotificationType::Error))
    } else if percent.is_at_most(very_low) {
        Some(("Low battery warning"@, battery_message(shown, time, true), NotificationType::Info))
    } else if percent.is_at_most(low) {
        Some(("Low battery notice"@, battery_message(shown, time, false), NotificationType::Info))
    } else {
        None
    }
}

/// Determines which notification should be sent based on battery level and
/// explicit thresholds.
pub fn determine_notification_with_thresholds(
    battery: &BatteryInfo,
    low: Binary32,
    very_low: Binary32,
    critical: Binary32,
) -> (r: Option<(String, String, NotificationType)>)
    ensures
        alert_view(r) == battery_alert(*battery, low, very_low, critical),
{
    if battery.plugged_in {
        return None;
    }
    let percent = battery.percent;
    let mut shown = String::new();
    percent.push_whole_text(&mut shown);
    assert(shown@ == percent.whole_text());
    if percent.at_most(&critical) {
        let message = format_battery_message(shown.as_str(), battery.time_remaining_secs, true);
        Some((String::from_str("Low battery warning"), message, NotificationType::Error))
    } else if percent.at_most(&very_low) {
        let message = format_battery_message(shown.as_str(), battery.time_remaining_secs, true);
        Some((String::from_str("Low battery warning"), message, NotificationType::Info))
    } else if percent.at_most(&low) {
        let message = format_battery_message(shown.as_str(), battery.time_remaining_secs, false);
        Some((String::from_str("Low battery notice"), message, NotificationType::Info))
    } else {
        None
    }
}

/// The desktop notification that a battery reading calls for under the
/// given thresholds, if any: the battery monitor's notification of
/// [`battery_alert`].
pub fn battery_notification(battery: &BatteryInfo, thresholds: &Thresholds) -> (r: Option<
    Notification,
>)
    ensures
        match battery_alert(*battery, thresholds.low, thresholds.very_low, thresholds.critical) {
            Some((title, message, notification_type)) => r matches Some(n) && n.describes(
                notification_type,
                App::Battery,
                title,
                message,
            ),
            None => r is None,
        },
{
    match determine_notification_with_thresholds(
        battery,
        thresholds.low,
        thresholds.very_low,
        thresholds.critical,
    ) {
        Some((title, message, notification_type)) => Some(
            notify(notification_type, App::Battery, title.as_str(), message.as_str()),
        ),
        None => None,
    }
}

/// A battery that is plugged in never calls for a notification.
pub proof fn plugged_in_never_notifies(
    battery: BatteryInfo,
    low: Binary32,
    very_low: Binary32,
    critical: Binary32,
)
    requires
        battery.plugged_in,
    ensures
        battery_alert(battery, low, very_low, critical) is None,
{
}

/// A discharging battery at or below the critical threshold calls for an
/// error notification.
pub proof fn critical_level_is_an_error(
    battery: BatteryInfo,
    low: Binary32,
    very_low: Binary32,
    critical: Binary32,
)
    requires
        !battery.plugged_in,
        battery.percent.is_at_most(critical),
    ensures
        battery_alert(battery, low, very_low, critical) matches Some((_, _, t)) && t
            == NotificationType::Error,
{
}

/// A battery that is not plugged in calls for a notification exactly when
/// its level is at or below one of the thresholds; with the thresholds in
/// their order (critical, then very low, then low), exactly when it is at
/// or below the low threshold.
pub proof fn notifies_exactly_at_or_below_low(
    battery: BatteryInfo,
    low: Binary32,
    very_low: Binary32,
    critical: Binary32,
)
    requires
        !battery.plugged_in,
    ensures
        battery_alert(battery, low, very_low, critical) is Some <==> (battery.percent.is_at_most(low)
            || battery.percent.is_at_most(very_low) || battery.percent.is_at_most(critical)),
        critical.is_at_most(very_low) && very_low.is_at_most(low) ==> (battery_alert(
            battery,
            low,
            very_low,
            critical,
        ) is Some <==> battery.percent.is_at_most(low)),
{
}

/// The text of the time remaining in a battery message: nothing when it is
/// not known.
pub open spec fn remaining_text(time_remaining: Option<u64>) -> Seq<char> {
    match time_remaining {
        Some(secs) => ". You have approximately "@ + hours_text(secs as nat) + " of power remaining"@,
        None => Seq::empty(),
    }
}

/// What each level of a discharging battery calls for, in full: at or
/// below `critical` an error, else at or below `very_low` a warning, both
/// titled "Low battery warning" and calling to plug in; else at or below
/// `low` a notice, titled "Low battery notice", without that call.  Each
/// message shows the rounded percentage and the time remaining when known.
pub proof fn alert_levels_in_full(
    battery: BatteryInfo,
    low: Binary32,
    very_low: Binary32,
    critical: Binary32,
)
    requires
        !battery.plugged_in,
    ensures
        battery.percent.is_at_most(critical) ==> battery_alert(battery, low, very_low, critical)
            == Some(
            (
                "Low battery warning"@,
                "Your battery is at "@ + battery.percent.whole_text()
                    + "%"@ + ", plug in your device or prepare for shutdown"@ + remaining_text(
                    battery.time_remaining_secs,
                ) + "."@,
                NotificationType::Error,
            ),
        ),
        !battery.percent.is_at_most(critical) && battery.percent.is_at_most(very_low)
            ==> battery_alert(battery, low, very_low, critical) == Some(
            (
                "Low battery warning"@,
                "Your battery is at "@ + battery.percent.whole_text()
                    + "%"@ + ", plug in your device or prepare for shutdown"@ + remaining_text(
                    battery.time_remaining_secs,
                ) + "."@,
                NotificationType::Info,
            ),
        ),
        !battery.percent.is_at_most(critical) && !battery.percent.is_at_most(very_low)
            && battery.percent.is_at_most(low) ==> battery_alert(battery, low, very_low, critical)
            == Some(
            (
                "Low battery notice"@,
                "Your battery is at "@ + battery.percent.whole_text() + "%"@ + remaining_text(
                    battery.time_remaining_secs,
                ) + "."@,
                NotificationType::Info,
            ),
        ),
{
    let shown = battery.percent.whole_text();
    let time = battery.time_remaining_secs;
    assert(battery_message(shown, time, true) =~= "Your battery is at "@ + shown + "%"@
        + ", plug in your device or prepare for shutdown"@ + remaining_text(time) + "."@);
    assert(battery_message(shown, time, false) =~= "Your battery is at "@ + shown + "%"@
        + remaining_text(time) + "."@);
}

/// Every warning-level battery alert ("Low battery warning") calls to plug
/// in: its message carries ", plug in your device or prepare for shutdown"
/// right after the percentage and its "%".
pub proof fn warnings_call_to_plug_in(
    battery: BatteryInfo,
    low: Binary32,
    very_low: Binary32,
    critical: Binary32,
)
    ensures
        battery_alert(battery, low, very_low, critical) matches Some((title, message, _)) ==> (
        title == "Low battery warning"@ ==> message.len() >= 20
            + battery.percent.whole_text().len() + 45 && message.subrange(
            20 + battery.percent.whole_text().len() as int,
            20 + battery.percent.whole_text().len() as int + 45,
        ) == ", plug in your device or prepare for shutdown"@),
{
    if !battery.plugged_in {
        reveal_strlit("Low battery warning");
        reveal_strlit("Low battery notice");
        reveal_strlit("Your battery is at ");
        reveal_strlit("%");
        reveal_strlit(", plug in your device or prepare for shutdown");
        reveal_strlit(".");
        alert_levels_in_full(battery, low, very_low, critical);
        let shown = battery.percent.whole_text();
        let n = shown.len() as int;
        let time = battery.time_remaining_secs;
        let warn = "Your battery is at "@ + shown + "%"@
            + ", plug in your device or prepare for shutdown"@ + remaining_text(time) + "."@;
        assert(warn.subrange(20 + n, 20 + n + 45) =~= ", plug in your device or prepare for shutdown"@);
        assert(("Low battery warning"@).len() != ("Low battery notice"@).len());
    }
}

/// Every battery message names the percentage followed by "%".
pub proof fn battery_message_shows_percentage(
    percentage: Seq<char>,
    time_remaining: Option<u64>,
    is_critical: bool,
)
    ensures
        battery_message(percentage, time_remaining, is_critical).subrange(
            19,
            19 + percentage.len() as int + 1,
        ) == percentage + seq!['%'],
{
    reveal_strlit("Your battery is at ");
    reveal_strlit("%");
    let m = battery_message(percentage, time_remaining, is_critical);
    assert(m.subrange(19, 19 + percentage.len() as int + 1) =~= percentage + seq!['%']);
}

} // verus!
