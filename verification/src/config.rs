//! Configuration of the monitors: the settings a user may give, the
//! defaults, and how the two are merged.
//!
//! Every setting is optional.  Merging a configuration with another one
//! keeps every setting the first one gives and takes the missing ones from
//! the second, recursively through the nested sections.

use vstd::prelude::*;
use vstd::string::*;
use vstd::arithmetic::power2::*;
use crate::binary32::Binary32;
use crate::common::Plan;

verus! {

/// The contract of `merge::option::overwrite_none` (merge 0.2.0): `left`
/// is replaced with `right` exactly when it is `None`.
pub assume_specification<T>[ merge::option::overwrite_none::<T> ](
    left: &mut Option<T>,
    right: Option<T>,
)
    ensures
        *final(left) == (if old(left).is_none() {
            right
        } else {
            *old(left)
        }),
;

/// `left` where it is given, else `right`.
pub open spec fn first_some<T>(left: Option<T>, right: Option<T>) -> Option<T> {
    if left is Some {
        left
    } else {
        right
    }
}

/// The view of an optional value.
pub open spec fn option_view<T: View>(o: Option<T>) -> Option<T::V> {
    match o {
        Some(t) => Some(t@),
        None => None,
    }
}

/// Settings that merge with settings of the same kind.
pub trait Merge: Sized + View {
    /// The view of `left` merged with `right`.
    spec fn merge_view(left: Self::V, right: Self::V) -> Self::V;

    /// Merges `other` into `self`.
    fn merge_from(&mut self, other: Self)
        ensures
            final(self)@ == Self::merge_view(old(self)@, other@),
    ;
}

/// Two optional sections merged: both given, they merge; one given, it
/// stays.
pub open spec fn merge_deep<T: Merge>(left: Option<T::V>, right: Option<T::V>) -> Option<T::V> {
    match (left, right) {
        (Some(l), Some(r)) => Some(T::merge_view(l, r)),
        (None, r) => r,
        (l, None) => l,
    }
}

/// Recursively merges two `Option<T>` values where `T` itself merges.
/// If both sides are `Some`, the inner values are merged. If `left` is `None`,
/// it is replaced with `right`.
pub fn merge_option_deep<T: Merge>(left: &mut Option<T>, right: Option<T>)
    ensures
        option_view(*final(left)) == merge_deep::<T>(option_view(*old(left)), option_view(right)),
{
    match right {
        Some(r) => match left {
            Some(l) => {
                l.merge_from(r);
            },
            None => {
                *left = Some(r);
            },
        },
        None => {},
    }
}

/// The three levels at which a monitor notifies, all given.
#[derive(Debug, Clone, Copy, PartialEq)]
pub struct Thresholds {
    /// The level of a notice
    pub low: Binary32,
    /// The level of a warning
    pub very_low: Binary32,
    /// The level of a critical notification
    pub critical: Binary32,
}

/// Disk usage percentages at which the disk space monitor notifies.
#[derive(Debug, Clone, Copy, Default, PartialEq)]
pub struct DiskThreshold {
    pub low: Option<Binary32>,
    pub very_low: Option<Binary32>,
    pub critical: Option<Binary32>,
}

/// Disk space monitor settings.
#[derive(Debug, Clone, Default)]
pub struct DiskConfig {
    pub paths: Option<Vec<String>>,
    pub thresholds: Option<DiskThreshold>,
    pub disabled: Option<bool>,
}

/// Battery percentages at which the battery monitor notifies.
#[derive(Debug, Clone, Copy, Default, PartialEq)]
pub struct BatteryThreshold {
    pub low: Option<Binary32>,
    pub very_low: Option<Binary32>,
    pub critical: Option<Binary32>,
}

/// Battery monitor settings.
#[derive(Debug, Clone, Copy, Default, PartialEq)]
pub struct BatteryConfig {
    pub thresholds: Option<BatteryThreshold>,
    pub disabled: Option<bool>,
}

/// The settings of both monitors.
#[derive(Debug, Clone, Default)]
pub struct Config {
    pub battery: Option<BatteryConfig>,
    pub diskspace: Option<DiskConfig>,
}

/// What a disk space configuration says: its paths as text.
pub struct DiskConfigView {
    pub paths: Option<Seq<Seq<char>>>,
    pub thresholds: Option<DiskThreshold>,
    pub disabled: Option<bool>,
}

/// What a configuration says.
pub struct ConfigView {
    pub battery: Option<BatteryConfig>,
    pub diskspace: Option<DiskConfigView>,
}

impl View for DiskThreshold {
    type V = DiskThreshold;

    open spec fn view(&self) -> DiskThreshold {
        *self
    }
}

impl View for BatteryThreshold {
    type V = BatteryThreshold;

    open spec fn view(&self) -> BatteryThreshold {
        *self
    }
}

impl View for BatteryConfig {
    type V = BatteryConfig;

    open spec fn view(&self) -> BatteryConfig {
        *self
    }
}

impl View for DiskConfig {
    type V = DiskConfigView;

    open spec fn view(&self) -> DiskConfigView {
        DiskConfigView {
            paths: self.paths.deep_view(),
            thresholds: self.thresholds,
            disabled: self.disabled,
        }
    }
}

impl View for Config {
    type V = ConfigView;

    open spec fn view(&self) -> ConfigView {
        ConfigView { battery: self.battery, diskspace: option_view(self.diskspace) }
    }
}

impl Merge for DiskThreshold {
    open spec fn merge_view(left: DiskThreshold, right: DiskThreshold) -> DiskThreshold {
        DiskThreshold {
            low: first_some(left.low, right.low),
            very_low: first_some(left.very_low, right.very_low),
            critical: first_some(left.critical, right.critical),
        }
    }

    fn merge_from(&mut self, other: Self) {
        merge::option::overwrite_none(&mut self.low, other.low);
        merge::option::overwrite_none(&mut self.very_low, other.very_low);
        merge::option::overwrite_none(&mut self.critical, other.critical);
    }
}

impl Merge for BatteryThreshold {
    open spec fn merge_view(left: BatteryThreshold, right: BatteryThreshold) -> BatteryThreshold {
        BatteryThreshold {
            low: first_some(left.low, right.low),
            very_low: first_some(left.very_low, right.very_low),
            critical: first_some(left.critical, right.critical),
        }
    }

    fn merge_from(&mut self, other: Self) {
        merge::option::overwrite_none(&mut self.low, other.low);
        merge::option::overwrite_none(&mut self.very_low, other.very_low);
        merge::option::overwrite_none(&mut self.critical, other.critical);
    }
}

impl Merge for BatteryConfig {
    open spec fn merge_view(left: BatteryConfig, right: BatteryConfig) -> BatteryConfig {
        BatteryConfig {
            thresholds: merge_deep::<BatteryThreshold>(left.thresholds, right.thresholds),
            disabled: first_some(left.disabled, right.disabled),
        }
    }

    fn merge_from(&mut self, other: Self) {
        proof {
            assert(option_view(self.thresholds) == self.thresholds);
            assert(option_view(other.thresholds) == other.thresholds);
        }
        merge_option_deep(&mut self.thresholds, other.thresholds);
        proof {
            assert(option_view(self.thresholds) == self.thresholds);
        }
        merge::option::overwrite_none(&mut self.disabled, other.disabled);
    }
}

impl Merge for DiskConfig {
    open spec fn merge_view(left: DiskConfigView, right: DiskConfigView) -> DiskConfigView {
        DiskConfigView {
            paths: first_some(left.paths, right.paths),
            thresholds: merge_deep::<DiskThreshold>(left.thresholds, right.thresholds),
            disabled: first_some(left.disabled, right.disabled),
        }
    }

    fn merge_from(&mut self, other: Self) {
        let ghost old_self = self@;
        let DiskConfig { paths, thresholds, disabled } = other;
        merge::option::overwrite_none(&mut self.paths, paths);
        proof {
            assert(option_view(self.thresholds) == self.thresholds);
            assert(option_view(thresholds) == thresholds);
        }
        merge_option_deep(&mut self.thresholds, thresholds);
        proof {
            assert(option_view(self.thresholds) == self.thresholds);
        }
        merge::option::overwrite_none(&mut self.disabled, disabled);
        proof {
            assert(self@ == Self::merge_view(old_self, other@));
        }
    }
}

impl Merge for Config {
    open spec fn merge_view(left: ConfigView, right: ConfigView) -> ConfigView {
        ConfigView {
            battery: merge_deep::<BatteryConfig>(left.battery, right.battery),
            diskspace: merge_deep::<DiskConfig>(left.diskspace, right.diskspace),
        }
    }

    fn merge_from(&mut self, other: Self) {
        let ghost old_self = self@;
        let Config { battery, diskspace } = other;
        proof {
            assert(option_view(self.battery) == self.battery);
            assert(option_view(battery) == battery);
        }
        merge_option_deep(&mut self.battery, battery);
        proof {
            assert(option_view(self.battery) == self.battery);
        }
        merge_option_deep(&mut self.diskspace, diskspace);
        proof {
            assert(self@ == Self::merge_view(old_self, other@));
        }
    }
}


/// The default battery settings: notify at 15%, warn at 10%, critical at 5%,
/// enabled.
pub open spec fn default_battery() -> BatteryConfig {
    BatteryConfig {
        thresholds: Some(
            BatteryThreshold {
                low: Some(Binary32(0x4170_0000)),
                very_low: Some(Binary32(0x4120_0000)),
                critical: Some(Binary32(0x40A0_0000)),
            },
        ),
        disabled: Some(false),
    }
}

/// The default disk space settings: the path "/", notify at 90% used, warn
/// at 95%, critical at 97.5%, enabled.
pub open spec fn default_diskspace() -> DiskConfigView {
    DiskConfigView {
        paths: Some(seq![seq!['/']]),
        thresholds: Some(
            DiskThreshold {
                low: Some(Binary32(0x42B4_0000)),
                very_low: Some(Binary32(0x42BE_0000)),
                critical: Some(Binary32(0x42C3_0000)),
            },
        ),
        disabled: Some(false),
    }
}

/// The default configuration.
pub open spec fn default_view() -> ConfigView {
    ConfigView { battery: Some(default_battery()), diskspace: Some(default_diskspace()) }
}

/// Every threshold is given.
pub open spec fn thresholds_complete(
    low: Option<Binary32>,
    very_low: Option<Binary32>,
    critical: Option<Binary32>,
) -> bool {
    low is Some && very_low is Some && critical is Some
}

/// Every battery setting is given.
pub open spec fn battery_complete(b: Option<BatteryConfig>) -> bool {
    match b {
        Some(b) => b.disabled is Some && match b.thresholds {
            Some(t) => thresholds_complete(t.low, t.very_low, t.critical),
            None => false,
        },
        None => false,
    }
}

/// Every disk space setting is given.
pub open spec fn diskspace_complete(d: Option<DiskConfigView>) -> bool {
    match d {
        Some(d) => d.paths is Some && d.disabled is Some && match d.thresholds {
            Some(t) => thresholds_complete(t.low, t.very_low, t.critical),
            None => false,
        },
        None => false,
    }
}

impl ConfigView {
    /// Every setting, in every section, is given.
    pub open spec fn complete(self) -> bool {
        battery_complete(self.battery) && diskspace_complete(self.diskspace)
    }
}

/// A setting given in `given` has the same value in `merged`.
pub open spec fn keeps<T>(given: Option<T>, merged: Option<T>) -> bool {
    given is Some ==> merged == given
}

/// Every threshold that `given` gives has the same value in `merged`.
pub open spec fn keeps_thresholds(
    given: (Option<Binary32>, Option<Binary32>, Option<Binary32>),
    merged: (Option<Binary32>, Option<Binary32>, Option<Binary32>),
) -> bool {
    keeps(given.0, merged.0) && keeps(given.1, merged.1) && keeps(given.2, merged.2)
}

/// Every battery setting that `given` gives has the same value in `merged`.
pub open spec fn keeps_battery(given: Option<BatteryConfig>, merged: Option<BatteryConfig>) -> bool {
    match (given, merged) {
        (Some(g), Some(m)) => keeps(g.disabled, m.disabled) && match (g.thresholds, m.thresholds) {
            (Some(gt), Some(mt)) => keeps_thresholds(
                (gt.low, gt.very_low, gt.critical),
                (mt.low, mt.very_low, mt.critical),
            ),
            (Some(_), None) => false,
            (None, _) => true,
        },
        (Some(_), None) => false,
        (None, _) => true,
    }
}

/// Every disk space setting that `given` gives has the same value in
/// `merged`.
pub open spec fn keeps_diskspace(given: Option<DiskConfigView>, merged: Option<DiskConfigView>) -> bool {
    match (given, merged) {
        (Some(g), Some(m)) => keeps(g.paths, m.paths) && keeps(g.disabled, m.disabled) && match (
            g.thresholds,
            m.thresholds,
        ) {
            (Some(gt), Some(mt)) => keeps_thresholds(
                (gt.low, gt.very_low, gt.critical),
                (mt.low, mt.very_low, mt.critical),
            ),
            (Some(_), None) => false,
            (None, _) => true,
        },
        (Some(_), None) => false,
        (None, _) => true,
    }
}

/// Every setting that `given` gives has the same value in `merged`.
pub open spec fn keeps_settings(given: ConfigView, merged: ConfigView) -> bool {
    keeps_battery(given.battery, merged.battery) && keeps_diskspace(given.diskspace, merged.diskspace)
}

/// The path of a configuration file under `home`.
pub open spec fn config_path(home: Seq<char>, rest: Seq<char>) -> Seq<char> {
    home + rest
}

/// How a battery configuration runs the battery monitor.
pub open spec fn battery_plan(c: BatteryConfig) -> Plan<Thresholds> {
    if c.disabled == Some(true) {
        Plan::Disabled
    } else {
        match c.thresholds {
            Some(t) => if thresholds_complete(t.low, t.very_low, t.critical) {
                Plan::Check(
                    Thresholds { low: t.low->0, very_low: t.very_low->0, critical: t.critical->0 },
                )
            } else {
                Plan::Incomplete
            },
            None => Plan::Incomplete,
        }
    }
}

/// How a disk space configuration runs the disk space monitor.
pub open spec fn disk_plan(c: DiskConfigView) -> Plan<(Seq<Seq<char>>, Thresholds)> {
    if c.disabled == Some(true) {
        Plan::Disabled
    } else {
        match (c.paths, c.thresholds) {
            (Some(p), Some(t)) => if thresholds_complete(t.low, t.very_low, t.critical) {
                Plan::Check(
                    (
                        p,
                        Thresholds {
                            low: t.low->0,
                            very_low: t.very_low->0,
                            critical: t.critical->0,
                        },
                    ),
                )
            } else {
                Plan::Incomplete
            },
            _ => Plan::Incomplete,
        }
    }
}

/// What a disk plan says: its paths as text.
pub open spec fn disk_plan_view(p: Plan<(Vec<String>, Thresholds)>) -> Plan<
    (Seq<Seq<char>>, Thresholds),
> {
    match p {
        Plan::Disabled => Plan::Disabled,
        Plan::Incomplete => Plan::Incomplete,
        Plan::Check((paths, t)) => Plan::Check((paths.deep_view(), t)),
    }
}

fn clone_strings(v: &Vec<String>) -> (r: Vec<String>)
    ensures
        r.deep_view() == v.deep_view(),
{
    let mut r: Vec<String> = Vec::new();
    let mut i: usize = 0;
    while i < v.len()
        invariant
            i <= v.len(),
            r@ == v@.take(i as int),
        decreases v.len() - i,
    {
        let s = v[i].clone();
        r.push(s);
        i = i + 1;
        proof {
            assert(r@ =~= v@.take(i as int));
        }
    }
    proof {
        assert(v@.take(i as int) =~= v@);
    }
    r
}

impl BatteryConfig {
    /// How this configuration runs the battery monitor: not at all when it
    /// is disabled, else with its thresholds, all of which it must give.
    pub fn plan(&self) -> (r: Plan<Thresholds>)
        ensures
            r == battery_plan(*self),
    {
        if self.disabled == Some(true) {
            return Plan::Disabled;
        }
        match self.thresholds {
            Some(t) => match (t.low, t.very_low, t.critical) {
                (Some(low), Some(very_low), Some(critical)) => Plan::Check(
                    Thresholds { low, very_low, critical },
                ),
                _ => Plan::Incomplete,
            },
            None => Plan::Incomplete,
        }
    }
}

impl DiskConfig {
    /// How this configuration runs the disk space monitor: not at all when
    /// it is disabled, else on its paths with its thresholds, all of which
    /// it must give.
    pub fn plan(&self) -> (r: Plan<(Vec<String>, Thresholds)>)
        ensures
            disk_plan_view(r) == disk_plan(self@),
    {
        if self.disabled == Some(true) {
            return Plan::Disabled;
        }
        match (&self.paths, self.thresholds) {
            (Some(paths), Some(t)) => match (t.low, t.very_low, t.critical) {
                (Some(low), Some(very_low), Some(critical)) => Plan::Check(
                    (clone_strings(paths), Thresholds { low, very_low, critical }),
                ),
                _ => Plan::Incomplete,
            },
            _ => Plan::Incomplete,
        }
    }
}

impl Config {
    /// Parses nothing: the built-in configuration.
    pub fn default() -> (r: Config)
        ensures
            r@ == default_view(),
    {
        proof {
            reveal_strlit("/");
        }
        let root = String::from_str("/");
        assert(root@ == seq!['/']);
        let mut paths: Vec<String> = Vec::new();
        paths.push(root);
        proof {
            assert(paths@[0].deep_view() == seq!['/']);
            assert(paths.deep_view() =~= seq![seq!['/']]);
        }
        Config {
            battery: Some(
                BatteryConfig {
                    thresholds: Some(
                        BatteryThreshold {
                            low: Some(Binary32(0x4170_0000)),
                            very_low: Some(Binary32(0x4120_0000)),
                            critical: Some(Binary32(0x40A0_0000)),
                        },
                    ),
                    disabled: Some(false),
                },
            ),
            diskspace: Some(
                DiskConfig {
                    paths: Some(paths),
                    thresholds: Some(
                        DiskThreshold {
                            low: Some(Binary32(0x42B4_0000)),
                            very_low: Some(Binary32(0x42BE_0000)),
                            critical: Some(Binary32(0x42C3_0000)),
                        },
                    ),
                    disabled: Some(false),
                },
            ),
        }
    }

    /// Deep-merges with the defaults, so every nested field is given.
    pub fn merge_with_default(self) -> (r: Config)
        ensures
            r@ == Config::merge_view(self@, default_view()),
    {
        let mut merged = self;
        let default = Config::default();
        merged.merge_from(default);
        merged
    }

    /// The configuration that loading ends with: the configuration found,
    /// merged with the defaults, or the defaults when none was found.
    pub fn resolve(found: Option<Config>) -> (r: Config)
        ensures
            r@ == (match found {
                Some(c) => Config::merge_view(c@, default_view()),
                None => default_view(),
            }),
    {
        match found {
            Some(c) => c.merge_with_default(),
            None => Config::default(),
        }
    }
}

/// The places of a configuration file under the home directory `home`, in
/// the order in which they are searched:
///   1. `~/.config/system-monitor.toml`
///   2. `~/.config/system-monitor/config.toml`
///   3. `~/.system-monitor.toml`
pub fn candidate_paths(home: &str) -> (r: Vec<String>)
    ensures
        r.deep_view() == seq![
            config_path(home@, "/.config/system-monitor.toml"@),
            config_path(home@, "/.config/system-monitor/config.toml"@),
            config_path(home@, "/.system-monitor.toml"@),
        ],
{
    let mut first = String::from_str(home);
    first.append("/.config/system-monitor.toml");
    let mut second = String::from_str(home);
    second.append("/.config/system-monitor/config.toml");
    let mut third = String::from_str(home);
    third.append("/.system-monitor.toml");
    let mut r: Vec<String> = Vec::new();
    r.push(first);
    r.push(second);
    r.push(third);
    proof {
        assert(r.deep_view() =~= seq![
            config_path(home@, "/.config/system-monitor.toml"@),
            config_path(home@, "/.config/system-monitor/config.toml"@),
            config_path(home@, "/.system-monitor.toml"@),
        ]);
    }
    r
}

/// The position of the first `true` in `exists`: the first candidate file
/// that exists, if any.
pub fn first_existing(exists: &[bool]) -> (r: Option<usize>)
    ensures
        match r {
            Some(i) => i < exists@.len() && exists@[i as int] && forall|j: int|
                0 <= j < i ==> !#[trigger] exists@[j],
            None => forall|j: int| 0 <= j < exists@.len() ==> !#[trigger] exists@[j],
        },
{
    let mut i: usize = 0;
    while i < exists.len()
        invariant
            i <= exists@.len(),
            forall|j: int| 0 <= j < i ==> !#[trigger] exists@[j],
        decreases exists@.len() - i,
    {
        if exists[i] {
            return Some(i);
        }
        i = i + 1;
    }
    None
}

/// The default thresholds are the numbers they are documented as: 15, 10
/// and 5 percent of battery charge; 90, 95 and 97.5 percent of disk usage.
pub proof fn default_thresholds_denote()
    ensures
        Binary32(0x4170_0000).scaled() == 15 * pow2(149),
        Binary32(0x4120_0000).scaled() == 10 * pow2(149),
        Binary32(0x40A0_0000).scaled() == 5 * pow2(149),
        Binary32(0x42B4_0000).scaled() == 90 * pow2(149),
        Binary32(0x42BE_0000).scaled() == 95 * pow2(149),
        2 * Binary32(0x42C3_0000).scaled() == 195 * pow2(149),
{
    lemma2_to64();
    lemma_pow2_adds(20, 129);
    lemma_pow2_adds(21, 128);
    lemma_pow2_adds(17, 132);
    lemma_pow2_adds(16, 133);
    lemma_pow2_unfold(149);
    assert(Binary32(0x4170_0000).exponent() == 130);
    assert(Binary32(0x4120_0000).exponent() == 130);
    assert(Binary32(0x40A0_0000).exponent() == 129);
    assert(Binary32(0x42B4_0000).exponent() == 133);
    assert(Binary32(0x42BE_0000).exponent() == 133);
    assert(Binary32(0x42C3_0000).exponent() == 133);
    assert(0xF0_0000 * pow2(129) == 15 * (pow2(20) * pow2(129))) by (nonlinear_arith)
        requires
            pow2(20) == 0x10_0000,
    ;
    assert(0xA0_0000 * pow2(129) == 10 * (pow2(20) * pow2(129))) by (nonlinear_arith)
        requires
            pow2(20) == 0x10_0000,
    ;
    assert(0xA0_0000 * pow2(128) == 5 * (pow2(21) * pow2(128))) by (nonlinear_arith)
        requires
            pow2(21) == 0x20_0000,
    ;
    assert(0xB4_0000 * pow2(132) == 90 * (pow2(17) * pow2(132))) by (nonlinear_arith)
        requires
            pow2(17) == 0x2_0000,
    ;
    assert(0xBE_0000 * pow2(132) == 95 * (pow2(17) * pow2(132))) by (nonlinear_arith)
        requires
            pow2(17) == 0x2_0000,
    ;
    assert(2 * (0xC3_0000 * pow2(132)) == 195 * (pow2(16) * pow2(133))) by (nonlinear_arith)
        requires
            pow2(16) == 0x1_0000,
            pow2(133) == 2 * pow2(132),
    ;
    lemma_pow2_unfold(133);
}

/// Merging keeps every setting that the first configuration gives.
pub proof fn merge_keeps_given_settings(given: ConfigView, other: ConfigView)
    ensures
        keeps_settings(given, Config::merge_view(given, other)),
{
}

/// A configuration merged with the defaults gives every setting.
pub proof fn merged_with_default_is_complete(c: ConfigView)
    ensures
        Config::merge_view(c, default_view()).complete(),
{
}

/// The defaults give every setting.
pub proof fn default_is_complete()
    ensures
        default_view().complete(),
{
}

/// Merging anything into a configuration that gives every setting changes
/// nothing.
pub proof fn merge_into_complete_is_identity(c: ConfigView, other: ConfigView)
    requires
        c.complete(),
    ensures
        Config::merge_view(c, other) == c,
{
}

/// Merging the same configuration in twice is merging it once.
pub proof fn merge_is_idempotent(c: ConfigView, other: ConfigView)
    ensures
        Config::merge_view(Config::merge_view(c, other), other) == Config::merge_view(c, other),
{
}

/// `merged` is what merging gives for one setting: the given value when
/// there is one, else the other configuration's value of the same setting.
pub open spec fn fills<T>(given: Option<T>, other: Option<T>, merged: Option<T>) -> bool {
    &&& given is Some ==> merged == given
    &&& given is None ==> merged == other
}

/// Merging two threshold sets, threshold by threshold: each threshold the
/// first gives stays, each missing one takes the second's value of the
/// same threshold.
pub proof fn threshold_merge_fills_each(
    dl: DiskThreshold,
    dr: DiskThreshold,
    bl: BatteryThreshold,
    br: BatteryThreshold,
)
    ensures
        fills(dl.low, dr.low, DiskThreshold::merge_view(dl, dr).low),
        fills(dl.very_low, dr.very_low, DiskThreshold::merge_view(dl, dr).very_low),
        fills(dl.critical, dr.critical, DiskThreshold::merge_view(dl, dr).critical),
        fills(bl.low, br.low, BatteryThreshold::merge_view(bl, br).low),
        fills(bl.very_low, br.very_low, BatteryThreshold::merge_view(bl, br).very_low),
        fills(bl.critical, br.critical, BatteryThreshold::merge_view(bl, br).critical),
{
}

/// Merging two disk space configurations: the paths and the disabled
/// setting are filled as single settings; the thresholds, when only one
/// side gives them, are that side's, and when both do, are merged threshold
/// by threshold.
pub proof fn disk_config_merge_fills_each(left: DiskConfigView, right: DiskConfigView)
    ensures
        fills(left.paths, right.paths, DiskConfig::merge_view(left, right).paths),
        fills(left.disabled, right.disabled, DiskConfig::merge_view(left, right).disabled),
        left.thresholds is None ==> DiskConfig::merge_view(left, right).thresholds
            == right.thresholds,
        right.thresholds is None ==> DiskConfig::merge_view(left, right).thresholds
            == left.thresholds,
        left.thresholds matches Some(l) ==> right.thresholds matches Some(r) ==> DiskConfig::merge_view(
            left,
            right,
        ).thresholds matches Some(m) && fills(l.low, r.low, m.low) && fills(
            l.very_low,
            r.very_low,
            m.very_low,
        ) && fills(l.critical, r.critical, m.critical),
{
}

/// Merging two battery configurations: the disabled setting is filled as
/// a single setting; the thresholds, when only one side gives them, are
/// that side's, and when both do, are merged threshold by threshold.
pub proof fn battery_config_merge_fills_each(left: BatteryConfig, right: BatteryConfig)
    ensures
        fills(left.disabled, right.disabled, BatteryConfig::merge_view(left, right).disabled),
        left.thresholds is None ==> BatteryConfig::merge_view(left, right).thresholds
            == right.thresholds,
        right.thresholds is None ==> BatteryConfig::merge_view(left, right).thresholds
            == left.thresholds,
        left.thresholds matches Some(l) ==> right.thresholds matches Some(r) ==> BatteryConfig::merge_view(
            left,
            right,
        ).thresholds matches Some(m) && fills(l.low, r.low, m.low) && fills(
            l.very_low,
            r.very_low,
            m.very_low,
        ) && fills(l.critical, r.critical, m.critical),
{
}

/// Merging two configurations, section by section: a section that only one
/// side gives is that side's; when both give it, the sections are merged.
pub proof fn config_merge_fills_each_section(left: ConfigView, right: ConfigView)
    ensures
        left.battery is None ==> Config::merge_view(left, right).battery == right.battery,
        right.battery is None ==> Config::merge_view(left, right).battery == left.battery,
        left.battery matches Some(l) ==> right.battery matches Some(r) ==> Config::merge_view(
            left,
            right,
        ).battery == Some(BatteryConfig::merge_view(l, r)),
        left.diskspace is None ==> Config::merge_view(left, right).diskspace == right.diskspace,
        right.diskspace is None ==> Config::merge_view(left, right).diskspace == left.diskspace,
        left.diskspace matches Some(l) ==> right.diskspace matches Some(r) ==> Config::merge_view(
            left,
            right,
        ).diskspace == Some(DiskConfig::merge_view(l, r)),
{
}

/// The disk space settings a configuration gives: none when it has no
/// such section.
pub open spec fn given_disk(c: ConfigView) -> DiskConfigView {
    match c.diskspace {
        Some(d) => d,
        None => DiskConfigView { paths: None, thresholds: None, disabled: None },
    }
}

/// The disk thresholds a configuration gives: none when it has no such
/// section.
pub open spec fn given_disk_thresholds(c: ConfigView) -> DiskThreshold {
    match given_disk(c).thresholds {
        Some(t) => t,
        None => DiskThreshold { low: None, very_low: None, critical: None },
    }
}

/// The battery settings a configuration gives: none when it has no such
/// section.
pub open spec fn given_battery(c: ConfigView) -> BatteryConfig {
    match c.battery {
        Some(b) => b,
        None => BatteryConfig { thresholds: None, disabled: None },
    }
}

/// The battery thresholds a configuration gives: none when it has no such
/// section.
pub open spec fn given_battery_thresholds(c: ConfigView) -> BatteryThreshold {
    match given_battery(c).thresholds {
        Some(t) => t,
        None => BatteryThreshold { low: None, very_low: None, critical: None },
    }
}

/// A user's configuration merged with the defaults: every setting the user
/// gives stays, and every setting the user leaves out has the default's
/// value ("/" as the only path, thresholds 15/10/5 for the battery and
/// 90/95/97.5 for the disks, enabled).
pub proof fn merge_with_default_fills_defaults(c: ConfigView)
    ensures
        Config::merge_view(c, default_view()).diskspace is Some,
        Config::merge_view(c, default_view()).diskspace->0.thresholds is Some,
        Config::merge_view(c, default_view()).battery is Some,
        Config::merge_view(c, default_view()).battery->0.thresholds is Some,
        fills(
            given_disk(c).paths,
            Some(seq![seq!['/']]),
            Config::merge_view(c, default_view()).diskspace->0.paths,
        ),
        fills(
            given_disk(c).disabled,
            Some(false),
            Config::merge_view(c, default_view()).diskspace->0.disabled,
        ),
        fills(
            given_disk_thresholds(c).low,
            Some(Binary32(0x42B4_0000)),
            Config::merge_view(c, default_view()).diskspace->0.thresholds->0.low,
        ),
        fills(
            given_disk_thresholds(c).very_low,
            Some(Binary32(0x42BE_0000)),
            Config::merge_view(c, default_view()).diskspace->0.thresholds->0.very_low,
        ),
        fills(
            given_disk_thresholds(c).critical,
            Some(Binary32(0x42C3_0000)),
            Config::merge_view(c, default_view()).diskspace->0.thresholds->0.critical,
        ),
        fills(
            given_battery(c).disabled,
            Some(false),
            Config::merge_view(c, default_view()).battery->0.disabled,
        ),
        fills(
            given_battery_thresholds(c).low,
            Some(Binary32(0x4170_0000)),
            Config::merge_view(c, default_view()).battery->0.thresholds->0.low,
        ),
        fills(
            given_battery_thresholds(c).very_low,
            Some(Binary32(0x4120_0000)),
            Config::merge_view(c, default_view()).battery->0.thresholds->0.very_low,
        ),
        fills(
            given_battery_thresholds(c).critical,
            Some(Binary32(0x40A0_0000)),
            Config::merge_view(c, default_view()).battery->0.thresholds->0.critical,
        ),
{
}

/// How a battery configuration runs the monitor, in terms of its settings:
/// disabled means no check; enabled with all three thresholds means a
/// check with exactly those thresholds; a missing threshold is incomplete.
pub proof fn battery_plan_follows_settings(c: BatteryConfig)
    ensures
        c.disabled == Some(true) ==> battery_plan(c) is Disabled,
        c.disabled != Some(true) && c.thresholds is Some && c.thresholds->0.low is Some
            && c.thresholds->0.very_low is Some && c.thresholds->0.critical is Some
            ==> battery_plan(c) == Plan::Check(
            (Thresholds {
                low: c.thresholds->0.low->0,
                very_low: c.thresholds->0.very_low->0,
                critical: c.thresholds->0.critical->0,
            }),
        ),
        c.disabled != Some(true) ==> (c.thresholds is None || c.thresholds->0.low is None
            || c.thresholds->0.very_low is None || c.thresholds->0.critical is None ==> battery_plan(
            c,
        ) is Incomplete),
{
}

/// How a disk space configuration runs the monitor, in terms of its
/// settings: disabled means no check; enabled with paths and all three
/// thresholds means a check of exactly those paths with exactly those
/// thresholds; a missing setting is incomplete.
pub proof fn disk_plan_follows_settings(c: DiskConfigView)
    ensures
        c.disabled == Some(true) ==> disk_plan(c) is Disabled,
        c.disabled != Some(true) && c.paths is Some && c.thresholds is Some
            && c.thresholds->0.low is Some && c.thresholds->0.very_low is Some
            && c.thresholds->0.critical is Some ==> disk_plan(c) == Plan::Check(
            (
                c.paths->0,
                (Thresholds {
                    low: c.thresholds->0.low->0,
                    very_low: c.thresholds->0.very_low->0,
                    critical: c.thresholds->0.critical->0,
                }),
            ),
        ),
        c.disabled != Some(true) ==> (c.paths is None || c.thresholds is None
            || c.thresholds->0.low is None || c.thresholds->0.very_low is None
            || c.thresholds->0.critical is None ==> disk_plan(c) is Incomplete),
{
}

} // verus!
