//! Disk space monitoring: byte counts for people, and the notification
//! that a disk's usage calls for under the configured thresholds.

use vstd::prelude::*;
use vstd::string::*;
use vstd::arithmetic::power2::*;
use crate::binary32::{
    Binary32, dropped_bits, lemma_dropped_bits_bounds, lemma_nearest_monotone, nearest_binary32,
    nearest_parts, to_nearest_binary32,
};
use vstd::arithmetic::div_mod::*;
use vstd::arithmetic::mul::*;
use crate::common::{alert_view, notify, App, Notification, NotificationType};
use crate::config::Thresholds;
use crate::rounding::{half_even, lemma_half_even_exact, lemma_half_even_monotone, pow2_u128};
use crate::text::{decimal, digit, digit_str, push_decimal};

verus! {

/// Default paths to monitor
pub const DEFAULT_PATHS: &'static [&'static str; 2] = &["/", "/home"];

/// Disk space information for a single mount point
#[derive(Debug, Clone, PartialEq)]
pub struct DiskSpaceInfo {
    /// The mount path
    pub path: String,
    /// Total space in bytes
    pub total_bytes: u64,
    /// Used space in bytes
    pub used_bytes: u64,
    /// Available space in bytes
    pub available_bytes: u64,
    /// Percentage used (0.0 to 100.0)
    pub percent_used: Binary32,
}

/// The smallest shift `s`, from the given one on (up to 200), that brings
/// `a * 2^s` to at least 2^23 * `b`.
pub open spec fn quotient_shift(a: nat, b: nat, s: nat) -> nat
    decreases 200 - s,
{
    if s >= 200 || a * pow2(s) >= 0x80_0000 * b {
        s
    } else {
        quotient_shift(a, b, s + 1)
    }
}

/// The used share of a disk in percent, times 2^149, as binary32 arithmetic
/// computes `(used as f32 / total as f32) * 100.0` (0 when `total` is 0):
/// both counts are converted to binary32 (`nearest_binary32`), their
/// quotient is rounded to 24 significant bits (ties to even), and its
/// product with 100 is rounded again.
pub open spec fn usage_scaled(used: nat, total: nat) -> nat {
    if total == 0 || used == 0 {
        0
    } else {
        let a = nearest_binary32(used);
        let b = nearest_binary32(total);
        let s = quotient_shift(a, b, 0);
        let m = half_even(a * pow2(s), b);
        nearest_binary32(100 * m) * pow2((149 - s) as nat)
    }
}

impl DiskSpaceInfo {
    /// This is the disk space information of a mount point holding `path`,
    /// with `total` bytes of space of which `available` are available: the
    /// used space is the difference (0 if more is available than there is),
    /// and the percentage used is that share in binary32 arithmetic.
    pub open spec fn measures(self, path: Seq<char>, total: u64, available: u64) -> bool {
        &&& self.path@ == path
        &&& self.total_bytes == total
        &&& self.available_bytes == available
        &&& self.used_bytes == (if available <= total {
            total - available
        } else {
            0
        })
        &&& !self.percent_used.negative()
        &&& !self.percent_used.nan()
        &&& self.percent_used.scaled() == usage_scaled(self.used_bytes as nat, total as nat)
    }

    /// The disk space information of a mount point holding `path`, with
    /// `total_bytes` of space of which `available_bytes` are available: the
    /// used space is the difference (0 if more is available than there is),
    /// and the percentage used is computed in binary32 arithmetic.
    pub fn from_space(path: &str, total_bytes: u64, available_bytes: u64) -> (r: DiskSpaceInfo)
        ensures
            r.measures(path@, total_bytes, available_bytes),
            r.percent_used.is_percentage(),
    {
        let used_bytes = total_bytes.saturating_sub(available_bytes);
        let percent_used = usage_percent(used_bytes, total_bytes);
        DiskSpaceInfo {
            path: String::from_str(path),
            total_bytes,
            used_bytes,
            available_bytes,
            percent_used,
        }
    }
}

/// A mounted disk, as the operating system lists it.
#[derive(Debug, Clone)]
pub struct MountedDisk {
    /// Where the disk is mounted
    pub mount_point: String,
    /// Total space in bytes
    pub total_bytes: u64,
    /// Available space in bytes
    pub available_bytes: u64,
}

/// Whether `path` lies under `base`, compared component by component, as
/// `std::path::Path::starts_with` decides it.
pub uninterp spec fn path_starts_with(path: Seq<char>, base: Seq<char>) -> bool;

/// `std::path::Path::starts_with` on `path` and `base`: whether `base` is a
/// leading part of `path`, whole components only.  Its result is given the
/// name `path_starts_with` and nothing more is claimed of it; the
/// components are those of the path syntax of the platform the library is
/// built for.
#[verifier::external_body]
fn path_has_base(path: &str, base: &str) -> (r: bool)
    ensures
        r == path_starts_with(path@, base@),
{
    std::path::Path::new(path).starts_with(base)
}

/// Whether `disk` holds `path`: its mount point is a leading part of it.
pub open spec fn holds_path(disk: MountedDisk, path: Seq<char>) -> bool {
    path_starts_with(path, disk.mount_point@)
}

/// The number of components of `path`, as
/// `std::path::Path::components` splits it.
pub uninterp spec fn path_depth(path: Seq<char>) -> nat;

/// The number of components that `std::path::Path::components` yields for
/// `path`.  Its result is given the name `path_depth` and nothing more is
/// claimed of it; the components are those of the path syntax of the
/// platform the library is built for.
#[verifier::external_body]
fn component_count(path: &str) -> (r: usize)
    ensures
        r == path_depth(path@),
{
    std::path::Path::new(path).components().count()
}

/// Disk `i` of `disks` is the one that contains `path`: it holds the path,
/// no disk that holds the path has a deeper mount point, and every disk
/// before it that holds the path has a shallower one (the first of equally
/// deep mount points).
pub open spec fn containing_disk(disks: Seq<MountedDisk>, path: Seq<char>, i: int) -> bool {
    &&& 0 <= i < disks.len()
    &&& holds_path(disks[i], path)
    &&& forall|j: int|
        0 <= j < disks.len() && #[trigger] holds_path(disks[j], path) ==> path_depth(
            disks[j].mount_point@,
        ) <= path_depth(disks[i].mount_point@)
    &&& forall|j: int|
        0 <= j < i && #[trigger] holds_path(disks[j], path) ==> path_depth(disks[j].mount_point@)
            < path_depth(disks[i].mount_point@)
}

/// The disk space information of `path`, on the disk of `disks` that
/// contains it (the one with the deepest mount point that is a leading part
/// of the path); `None` if the path does not exist (`path_exists` is false)
/// or no disk holds it.
pub fn disk_space_info(path: &str, path_exists: bool, disks: &[MountedDisk]) -> (r: Option<
    DiskSpaceInfo,
>)
    ensures
        !path_exists ==> r is None,
        path_exists ==> (r is None <==> forall|j: int|
            0 <= j < disks@.len() ==> !holds_path(#[trigger] disks@[j], path@)),
        r matches Some(info) ==> exists|i: int| #[trigger]
            containing_disk(disks@, path@, i) && info.measures(
                path@,
                disks@[i].total_bytes,
                disks@[i].available_bytes,
            ),
        r matches Some(info) ==> info.percent_used.is_percentage(),
{
    if !path_exists {
        return None;
    }
    let mut best: Option<usize> = None;
    let mut best_depth: usize = 0;
    let mut i: usize = 0;
    while i < disks.len()
        invariant
            path_exists,
            i <= disks@.len(),
            match best {
                None => forall|j: int| 0 <= j < i ==> !holds_path(#[trigger] disks@[j], path@),
                Some(b) => {
                    &&& b < i
                    &&& holds_path(disks@[b as int], path@)
                    &&& best_depth == path_depth(disks@[b as int].mount_point@)
                    &&& forall|j: int|
                        0 <= j < i && #[trigger] holds_path(disks@[j], path@) ==> path_depth(
                            disks@[j].mount_point@,
                        ) <= best_depth
                    &&& forall|j: int|
                        0 <= j < b && #[trigger] holds_path(disks@[j], path@) ==> path_depth(
                            disks@[j].mount_point@,
                        ) < best_depth
                },
            },
        decreases disks@.len() - i,
    {
        let disk = &disks[i];
        if path_has_base(path, disk.mount_point.as_str()) {
            let depth = component_count(disk.mount_point.as_str());
            match best {
                None => {
                    best = Some(i);
                    best_depth = depth;
                },
                Some(_) => {
                    if depth > best_depth {
                        best = Some(i);
                        best_depth = depth;
                    }
                },
            }
        }
        i = i + 1;
    }
    match best {
        None => None,
        Some(b) => {
            let disk = &disks[b];
            let info = DiskSpaceInfo::from_space(path, disk.total_bytes, disk.available_bytes);
            assert(containing_disk(disks@, path@, b as int));
            Some(info)
        },
    }
}

/// `(used as f32 / total as f32) * 100.0`, or 0 when `total` is 0.
fn usage_percent(used: u64, total: u64) -> (r: Binary32)
    requires
        used <= total,
    ensures
        !r.negative(),
        !r.nan(),
        r.scaled() == usage_scaled(used as nat, total as nat),
        r.is_percentage(),
{
    if total == 0 || used == 0 {
        return Binary32(0);
    }
    proof {
        lemma2_to64();
        lemma_nearest_monotone(used as nat, total as nat);
    }
    let (qa, ka) = nearest_parts(used);
    let (qb, kb) = nearest_parts(total);
    let pa = pow2_u128(ka);
    let pb = pow2_u128(kb);
    let a = qa * pa;
    let b = qb * pb;
    proof {
        lemma_pow2_pos(ka as nat);
        lemma_pow2_pos(kb as nat);
        if ka == 0 {
            assert(qa == used);
        }
        if kb == 0 {
            assert(qb == total);
        }
        assert(a >= 1) by (nonlinear_arith)
            requires
                qa >= 1,
                pa >= 1,
                a == qa * pa,
        ;
        assert(a <= b);
        lemma_pow2_adds(64, 1);
    }
    let mut x: u128 = a;
    let mut s: u32 = 0;
    while x < 0x80_0000 * b
        invariant
            1 <= a <= b <= 0x2_0000_0000_0000_0000,
            s <= 88,
            x == a * pow2(s as nat),
            x < 0x100_0000 * b,
            quotient_shift(a as nat, b as nat, 0) == quotient_shift(a as nat, b as nat, s as nat),
        decreases 88 - s,
    {
        proof {
            lemma2_to64();
            lemma_pow2_unfold((s + 1) as nat);
            assert(pow2(s as nat) < 0x1_0000_0000_0000_0000_0000_00) by (nonlinear_arith)
                requires
                    a >= 1,
                    a * pow2(s as nat) < 0x80_0000 * b,
                    b <= 0x2_0000_0000_0000_0000,
            ;
            if s >= 88 {
                lemma_pow2_adds(64, 24);
                if s > 88 {
                    lemma_pow2_strictly_increases(88, s as nat);
                }
                assert(false);
            }
            assert(a * pow2((s + 1) as nat) == 2 * x) by (nonlinear_arith)
                requires
                    pow2((s + 1) as nat) == 2 * pow2(s as nat),
                    x == a * pow2(s as nat),
            ;
        }
        x = x * 2;
        s = s + 1;
    }
    let q = x / b;
    let rem = x % b;
    let m = if 2 * rem > b || (2 * rem == b && q % 2 == 1) {
        q + 1
    } else {
        q
    };
    proof {
        lemma_half_even_monotone(x as nat, x as nat, b as nat);
        lemma_div_multiples_vanish(0x80_0000, b as int);
        lemma_div_is_ordered((0x80_0000 * b) as int, x as int, b as int);
        lemma_fundamental_div_mod(x as int, b as int);
        if q >= 0x100_0000 {
            assert(x >= 0x100_0000 * b) by (nonlinear_arith)
                requires
                    x == b * q + rem,
                    q >= 0x100_0000,
                    rem >= 0,
            ;
        }
        assert(s >= 1) by {
            if s == 0 {
                assert(x == a);
            }
        }
    }
    let (sig0, k) = nearest_parts(100 * m as u64);
    proof {
        lemma_dropped_bits_bounds(100 * m as nat);
        lemma_pow2_adds(24, 5);
        if k <= 5 {
            if k < 5 {
                lemma_pow2_strictly_increases((24 + k) as nat, 29);
            }
            assert(false);
        }
        lemma_pow2_adds(23, 8);
        if k >= 8 {
            if k > 8 {
                lemma_pow2_strictly_increases(31, (23 + k) as nat);
            }
            assert(false);
        }
    }
    let (sig, kk) = if sig0 == 0x100_0000 {
        (0x80_0000u128, k + 1)
    } else {
        (sig0, k)
    };
    let e: u32 = 150 + kk - s;
    let bits: u32 = e * 0x80_0000 + (sig - 0x80_0000) as u32;
    let r = Binary32(bits);
    proof {
        lemma_fundamental_div_mod_converse(bits as int, 0x80_0000, e as int, (sig - 0x80_0000) as int);
        assert(r.exponent() == e);
        assert(r.fraction() == sig - 0x80_0000);
        lemma_pow2_adds(kk as nat, (149 - s) as nat);
        lemma_pow2_unfold((k + 1) as nat);
        assert(sig * pow2(kk as nat) == sig0 * pow2(k as nat)) by (nonlinear_arith)
            requires
                sig0 == 0x100_0000 ==> (sig == 0x80_0000 && kk == k + 1),
                sig0 != 0x100_0000 ==> (sig == sig0 && kk == k),
                pow2((k + 1) as nat) == 2 * pow2(k as nat),
        ;
        lemma_mul_is_associative(sig as int, pow2(kk as nat) as int, pow2((149 - s) as nat) as int);
        lemma_mul_is_associative(sig0 as int, pow2(k as nat) as int, pow2((149 - s) as nat) as int);
        assert(m == half_even(x as nat, b as nat));
        lemma_usage_at_most_hundred(a as nat, b as nat, s as nat, m as nat);
    }
    r
}

/// A share of at most the whole, rounded and multiplied by 100 in binary32
/// arithmetic, is at most 100.
proof fn lemma_usage_at_most_hundred(a: nat, b: nat, s: nat, m: nat)
    requires
        0 < b,
        a <= b,
        s <= 149,
        m == half_even(a * pow2(s), b),
    ensures
        nearest_binary32(100 * m) * pow2((149 - s) as nat) <= 100 * pow2(149),
{
    let x = a * pow2(s);
    lemma_pow2_pos(s);
    assert(x <= pow2(s) * b) by (nonlinear_arith)
        requires
            x == a * pow2(s),
            a <= b,
            pow2(s) > 0,
    ;
    lemma_half_even_monotone(x, pow2(s) * b, b);
    lemma_half_even_exact(pow2(s), b);
    assert(m <= pow2(s));
    lemma_nearest_monotone(100 * m, 100 * pow2(s));
    lemma_nearest_of_hundred_times(s);
    lemma_pow2_adds(s, (149 - s) as nat);
    lemma_mul_inequality(
        nearest_binary32(100 * m) as int,
        (100 * pow2(s)) as int,
        pow2((149 - s) as nat) as int,
    );
    lemma_mul_is_associative(100, pow2(s) as int, pow2((149 - s) as nat) as int);
}

/// Nothing used is 0 percent and everything used is exactly 100 percent,
/// in binary32 arithmetic too.
pub proof fn usage_of_empty_and_full_disks(total: nat)
    ensures
        usage_scaled(0, total) == 0,
        total > 0 ==> usage_scaled(total, total) == 100 * pow2(149),
{
    if total > 0 {
        let b = nearest_binary32(total);
        lemma_nearest_positive(total);
        lemma_quotient_shift_of_equals(b, 0);
        lemma_pow2_pos(23);
        lemma_half_even_exact(pow2(23), b);
        lemma_mul_is_commutative(pow2(23) as int, b as int);
        lemma_nearest_of_hundred_times(23);
        lemma_pow2_adds(23, 126);
        lemma_mul_is_associative(100, pow2(23) as int, pow2(126) as int);
    }
}

/// A positive count converts to a positive binary32 value.
proof fn lemma_nearest_positive(n: nat)
    requires
        n > 0,
    ensures
        nearest_binary32(n) > 0,
{
    let k = dropped_bits(n);
    lemma_dropped_bits_bounds(n);
    lemma_pow2_pos(k);
    lemma_half_even_monotone(n, n, pow2(k));
    if k > 0 {
        lemma_pow2_adds(23, k);
        lemma_pow2_pos(23);
        lemma_mul_is_commutative(pow2(23) as int, pow2(k) as int);
        lemma_div_multiples_vanish(pow2(23) as int, pow2(k) as int);
        lemma_div_is_ordered((pow2(k) * pow2(23)) as int, n as int, pow2(k) as int);
        assert(n / pow2(k) >= 1) by (nonlinear_arith)
            requires
                n / pow2(k) >= pow2(23),
                pow2(23) > 0,
        ;
    } else {
        assert(pow2(0) == 1) by {
            lemma2_to64();
        }
        assert(n / pow2(k) == n);
    }
    lemma_mul_strictly_positive(half_even(n, pow2(k)) as int, pow2(k) as int);
}

/// A number over itself needs the shift 23 to reach 2^23.
proof fn lemma_quotient_shift_of_equals(b: nat, s: nat)
    requires
        b > 0,
        s <= 23,
    ensures
        quotient_shift(b, b, s) == 23,
    decreases 23 - s,
{
    lemma2_to64();
    if s < 23 {
        lemma_pow2_strictly_increases(s, 23);
        lemma_mul_strict_inequality(pow2(s) as int, pow2(23) as int, b as int);
        lemma_mul_is_commutative(b as int, pow2(s) as int);
        lemma_quotient_shift_of_equals(b, s + 1);
    } else {
        lemma_mul_is_commutative(b as int, pow2(23) as int);
    }
}

/// 100 * 2^s converts to binary32 exactly.
proof fn lemma_nearest_of_hundred_times(s: nat)
    ensures
        nearest_binary32(100 * pow2(s)) == 100 * pow2(s),
{
    lemma2_to64();
    let n = 100 * pow2(s);
    let k = dropped_bits(n);
    lemma_dropped_bits_bounds(n);
    lemma_pow2_pos(s);
    lemma_pow2_adds(24, s);
    if k > s {
        lemma_pow2_adds(23, k);
        if k > s + 1 {
            lemma_pow2_strictly_increases(s + 1, k);
        }
        lemma_pow2_unfold(s + 1);
        assert(pow2(23) * pow2(k) >= pow2(24) * pow2(s)) by (nonlinear_arith)
            requires
                pow2(k) >= pow2(s + 1),
                pow2(s + 1) == 2 * pow2(s),
                pow2(24) == 2 * pow2(23),
        ;
        assert(n < pow2(24) * pow2(s)) by (nonlinear_arith)
            requires
                n == 100 * pow2(s),
                pow2(24) == 0x100_0000,
                pow2(s) > 0,
        ;
        assert(false);
    }
    lemma_pow2_adds((s - k) as nat, k);
    lemma_mul_is_associative(100, pow2((s - k) as nat) as int, pow2(k) as int);
    lemma_pow2_pos(k);
    lemma_half_even_exact(100 * pow2((s - k) as nat), pow2(k));
}


/// The unit in which `bytes` (at least 1024) is shown, as a power of two:
/// the largest of K = 2^10 up to E = 2^60 that is at most `bytes`.
pub open spec fn unit_exponent(bytes: nat) -> nat {
    if bytes >= 0x1000_0000_0000_0000 {
        60
    } else if bytes >= 0x4_0000_0000_0000 {
        50
    } else if bytes >= 0x100_0000_0000 {
        40
    } else if bytes >= 0x4000_0000 {
        30
    } else if bytes >= 0x10_0000 {
        20
    } else {
        10
    }
}

/// The symbol of the unit 2^`e`.
pub open spec fn unit_symbol(e: nat) -> char {
    if e == 60 {
        'E'
    } else if e == 50 {
        'P'
    } else if e == 40 {
        'T'
    } else if e == 30 {
        'G'
    } else if e == 20 {
        'M'
    } else {
        'K'
    }
}

/// `bytes` for people: below 1024 the count and "B"; else the count
/// converted to binary32, divided by its unit, with one decimal (ties to
/// even), and the unit's symbol.
pub open spec fn human_text(bytes: nat) -> Seq<char> {
    if bytes < 1024 {
        decimal(bytes) + seq!['B']
    } else {
        let e = unit_exponent(bytes);
        let tenths = half_even(nearest_binary32(bytes) * 10, pow2(e));
        decimal(tenths / 10) + seq!['.', digit((tenths % 10) as int), unit_symbol(e)]
    }
}

/// Converts bytes to human-readable format: the value and a unit (B, K, M,
/// G, T, P or E).
pub fn bytes_to_human(bytes: u64) -> (r: String)
    ensures
        r@ == human_text(bytes as nat),
{
    let mut r = String::new();
    if bytes < 1024 {
        push_decimal(&mut r, bytes as u128);
        proof { reveal_strlit("B"); }
        r.append("B");
        proof {
            assert(r@ =~= human_text(bytes as nat));
        }
        return r;
    }
    proof {
        lemma2_to64();
        lemma2_to64_rest();
    }
    let (unit, symbol): (u128, &str) = if bytes >= 0x1000_0000_0000_0000 {
        proof { reveal_strlit("E"); }
        (0x1000_0000_0000_0000, "E")
    } else if bytes >= 0x4_0000_0000_0000 {
        proof { reveal_strlit("P"); lemma_pow2_adds(32, 18); }
        (0x4_0000_0000_0000, "P")
    } else if bytes >= 0x100_0000_0000 {
        proof { reveal_strlit("T"); lemma_pow2_adds(32, 8); }
        (0x100_0000_0000, "T")
    } else if bytes >= 0x4000_0000 {
        proof { reveal_strlit("G"); }
        (0x4000_0000, "G")
    } else if bytes >= 0x10_0000 {
        proof { reveal_strlit("M"); }
        (0x10_0000, "M")
    } else {
        proof { reveal_strlit("K"); }
        (0x400, "K")
    };
    assert(unit == pow2(unit_exponent(bytes as nat)));
    assert(symbol@ == seq![unit_symbol(unit_exponent(bytes as nat))]);
    let v = to_nearest_binary32(bytes);
    let n = v * 10;
    let q = n / unit;
    let rem = n % unit;
    let tenths = if 2 * rem > unit || (2 * rem == unit && q % 2 == 1) {
        q + 1
    } else {
        q
    };
    push_decimal(&mut r, tenths / 10);
    proof { reveal_strlit("."); }
    r.append(".");
    r.append(digit_str(tenths % 10));
    r.append(symbol);
    proof {
        assert(r@ =~= human_text(bytes as nat));
    }
    r
}


/// The disk space message: the path, the usage with one decimal, and the
/// available and total space for people.
pub open spec fn diskspace_message(info: DiskSpaceInfo) -> Seq<char> {
    info.path@ + " is "@ + info.percent_used.one_decimal_text() + "% full, only "@ + human_text(
        info.available_bytes as nat,
    ) + " of "@ + human_text(info.total_bytes as nat) + " remains unused."@
}

/// Formats the disk space notification message.
pub fn format_diskspace_message(info: &DiskSpaceInfo) -> (r: String)
    ensures
        r@ == diskspace_message(*info),
{
    let mut r = info.path.clone();
    r.append(" is ");
    info.percent_used.push_one_decimal_text(&mut r);
    r.append("% full, only ");
    let available = bytes_to_human(info.available_bytes);
    r.append(available.as_str());
    r.append(" of ");
    let total = bytes_to_human(info.total_bytes);
    r.append(total.as_str());
    r.append(" remains unused.");
    proof {
        assert(r@ =~= diskspace_message(*info));
    }
    r
}

/// The notification (title, message, type) that a disk's usage calls for
/// under the thresholds `low`, `very_low` and `critical`, compared as
/// binary32 values: at or above `critical` an error, else at or above
/// `very_low` a warning, else at or above `low` a notice, else none.
pub open spec fn diskspace_alert(
    info: DiskSpaceInfo,
    low: Binary32,
    very_low: Binary32,
    critical: Binary32,
) -> Option<(Seq<char>, Seq<char>, NotificationType)> {
    let percent = info.percent_used;
    let message = diskspace_message(info);
    if critical.is_at_most(percent) {
        Some(("Disk space critical"@, message, NotificationType::Error))
    } else if very_low.is_at_most(percent) {
        Some(("Low disk space warning"@, message, NotificationType::Info))
    } else if low.is_at_most(percent) {
        Some(("Low disk space notice"@, message, NotificationType::Info))
    } else {
        None
    }
}

/// Determines which notification should be sent based on disk usage and
/// explicit thresholds.
pub fn determine_notification_with_thresholds(
    info: &DiskSpaceInfo,
    low: Binary32,
    very_low: Binary32,
    critical: Binary32,
) -> (r: Option<(String, String, NotificationType)>)
    ensures
        alert_view(r) == diskspace_alert(*info, low, very_low, critical),
{
    let percent = info.percent_used;
    let message = format_diskspace_message(info);
    if percent.at_least(&critical) {
        Some((String::from_str("Disk space critical"), message, NotificationType::Error))
    } else if percent.at_least(&very_low) {
        Some((String::from_str("Low disk space warning"), message, NotificationType::Info))
    } else if percent.at_least(&low) {
        Some((String::from_str("Low disk space notice"), message, NotificationType::Info))
    } else {
        None
    }
}

/// The desktop notification that a disk's usage calls for under the given
/// thresholds, if any: the disk space monitor's notification of
/// [`diskspace_alert`].
pub fn diskspace_notification(info: &DiskSpaceInfo, thresholds: &Thresholds) -> (r: Option<
    Notification,
>)
    ensures
        match diskspace_alert(*info, thresholds.low, thresholds.very_low, thresholds.critical) {
            Some((title, message, notification_type)) => r matches Some(n) && n.describes(
                notification_type,
                App::DiskSpace,
                title,
                message,
            ),
            None => r is None,
        },
{
    match determine_notification_with_thresholds(
        info,
        thresholds.low,
        thresholds.very_low,
        thresholds.critical,
    ) {
        Some((title, message, notification_type)) => Some(
            notify(notification_type, App::DiskSpace, title.as_str(), message.as_str()),
        ),
        None => None,
    }
}

/// A disk at or above the critical threshold calls for an error
/// notification.
pub proof fn critical_usage_is_an_error(
    info: DiskSpaceInfo,
    low: Binary32,
    very_low: Binary32,
    critical: Binary32,
)
    requires
        critical.is_at_most(info.percent_used),
    ensures
        diskspace_alert(info, low, very_low, critical) matches Some((_, _, t)) && t
            == NotificationType::Error,
{
}

/// A disk calls for a notification exactly when its usage is at or above
/// one of the thresholds; with the thresholds in their order (low, then
/// very low, then critical), exactly when it is at or above the low
/// threshold.
pub proof fn notifies_exactly_at_or_above_low(
    info: DiskSpaceInfo,
    low: Binary32,
    very_low: Binary32,
    critical: Binary32,
)
    ensures
        diskspace_alert(info, low, very_low, critical) is Some <==> (low.is_at_most(
            info.percent_used,
        ) || very_low.is_at_most(info.percent_used) || critical.is_at_most(info.percent_used)),
        low.is_at_most(very_low) && very_low.is_at_most(critical) ==> (diskspace_alert(
            info,
            low,
            very_low,
            critical,
        ) is Some <==> low.is_at_most(info.percent_used)),
{
}

/// What each level of disk usage calls for, in full: at or above
/// `critical` an error titled "Disk space critical", else at or above
/// `very_low` a warning titled "Low disk space warning", else at or above
/// `low` a notice titled "Low disk space notice", else nothing.  Every
/// message names the path, the usage with one decimal, and the available
/// and total space for people.
pub proof fn disk_alert_levels_in_full(
    info: DiskSpaceInfo,
    low: Binary32,
    very_low: Binary32,
    critical: Binary32,
)
    ensures
        ({
            let message = info.path@ + " is "@ + info.percent_used.one_decimal_text()
                + "% full, only "@ + human_text(info.available_bytes as nat) + " of "@
                + human_text(info.total_bytes as nat) + " remains unused."@;
            &&& critical.is_at_most(info.percent_used) ==> diskspace_alert(
                info,
                low,
                very_low,
                critical,
            ) == Some(("Disk space critical"@, message, NotificationType::Error))
            &&& !critical.is_at_most(info.percent_used) && very_low.is_at_most(info.percent_used)
                ==> diskspace_alert(info, low, very_low, critical) == Some(
                ("Low disk space warning"@, message, NotificationType::Info),
            )
            &&& !critical.is_at_most(info.percent_used) && !very_low.is_at_most(
                info.percent_used,
            ) && low.is_at_most(info.percent_used) ==> diskspace_alert(
                info,
                low,
                very_low,
                critical,
            ) == Some(("Low disk space notice"@, message, NotificationType::Info))
            &&& !critical.is_at_most(info.percent_used) && !very_low.is_at_most(
                info.percent_used,
            ) && !low.is_at_most(info.percent_used) ==> diskspace_alert(
                info,
                low,
                very_low,
                critical,
            ) is None
        }),
{
}

/// Every byte count of at least 1024 is shown in the largest unit, from K
/// (2^10) to E (2^60), that does not exceed it: the count is at least the
/// unit and, below E, less than the next one.
pub proof fn human_unit_is_the_largest_fitting(bytes: nat)
    requires
        1024 <= bytes < 0x1_0000_0000_0000_0000,
    ensures
        pow2(unit_exponent(bytes)) <= bytes,
        unit_exponent(bytes) < 60 ==> bytes < pow2(unit_exponent(bytes) + 10),
        unit_exponent(bytes) % 10 == 0,
        10 <= unit_exponent(bytes) <= 60,
{
    lemma2_to64();
    lemma2_to64_rest();
    lemma_pow2_adds(32, 18);
    lemma_pow2_adds(32, 8);
}

/// Every disk space message shows the usage followed by "%".
pub proof fn diskspace_message_shows_percentage(info: DiskSpaceInfo)
    ensures
        diskspace_message(info).contains('%'),
{
    reveal_strlit(" is ");
    reveal_strlit("% full, only ");
    let m = diskspace_message(info);
    let i = info.path@.len() + 4 + info.percent_used.one_decimal_text().len();
    assert(m[i as int] == '%');
}

/// Every byte count is shown with a unit: the text is not empty and ends in
/// one of B, K, M, G, T, P and E.
pub proof fn human_text_ends_in_unit(bytes: nat)
    ensures
        human_text(bytes).len() > 0,
        seq!['B', 'K', 'M', 'G', 'T', 'P', 'E'].contains(human_text(bytes).last()),
{
    let t = human_text(bytes);
    let units = seq!['B', 'K', 'M', 'G', 'T', 'P', 'E'];
    if bytes < 1024 {
        assert(t.last() == units[0]);
    } else {
        let e = unit_exponent(bytes);
        assert(t.last() == unit_symbol(e));
        if e == 60 {
            assert(t.last() == units[6]);
        } else if e == 50 {
            assert(t.last() == units[5]);
        } else if e == 40 {
            assert(t.last() == units[4]);
        } else if e == 30 {
            assert(t.last() == units[3]);
        } else if e == 20 {
            assert(t.last() == units[2]);
        } else {
            assert(t.last() == units[1]);
        }
    }
}

} // verus!
