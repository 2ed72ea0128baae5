use vstd::prelude::*;

verus! {

/// Integer share of `part` in `total`, in whole percent, rounded down; zero for an empty total.
pub fn usage_percent(part: u64, total: u64) -> (r: u64)
    requires
        part <= total,
    ensures
        r == percent_of(part as int, total as int),
        r <= 100,
{
    if total == 0 {
        0
    } else {
        let p: u128 = part as u128 * 100;
        let q: u128 = p / (total as u128);
        proof {
            assert(q <= 100) by (nonlinear_arith)
                requires q == p / (total as u128), p == part * 100, part <= total, total > 0;
        }
        q as u64
    }
}

/// Whole percent of `part` in `total`, rounded down, or zero when `total` is zero.
pub open spec fn percent_of(part: int, total: int) -> int {
    if total == 0 {
        0
    } else {
        (part * 100) / total
    }
}

/// RAM figures of one sample, in bytes.
#[derive(Clone, Copy, Debug, PartialEq, Eq, Structural)]
pub struct MemoryReport {
    pub total: u64,
    pub used: u64,
    pub free: u64,
    pub usage_percent: u64,
}

/// Memory figures from the total and used byte counts.
pub fn memory_report(total: u64, used: u64) -> (r: MemoryReport)
    requires
        used <= total,
    ensures
        r.total == total,
        r.used == used,
        r.free == total - used,
        r.usage_percent == percent_of(used as int, total as int),
        r.usage_percent <= 100,
{
    MemoryReport { total, used, free: total - used, usage_percent: usage_percent(used, total) }
}

/// One mounted volume.
#[derive(Clone, Debug)]
pub struct DiskReport {
    pub name: String,
    pub mount_point: String,
    pub total_space: u64,
    pub available_space: u64,
    pub usage_percent: u64,
}

/// Report of a volume from its names and its total and available byte counts;
/// the share in use is what is not available.
pub fn disk_report(name: String, mount_point: String, total_space: u64, available_space: u64) -> (r: DiskReport)
    requires
        available_space <= total_space,
    ensures
        r.name@ == name@,
        r.mount_point@ == mount_point@,
        r.total_space == total_space,
        r.available_space == available_space,
        r.usage_percent == percent_of(total_space - available_space, total_space as int),
        r.usage_percent <= 100,
{
    let usage_percent = usage_percent(total_space - available_space, total_space);
    DiskReport { name, mount_point, total_space, available_space, usage_percent }
}

} // verus!
