//! What the monitor asks of the machine it runs on, decided over plain
//! readings.

use vstd::prelude::*;

verus! {

/// Least memory the monitor asks for, in gibibytes.
pub const MIN_MEMORY_GB: u64 = 4;

/// Least number of processor cores the monitor asks for.
pub const MIN_CPU_CORES: usize = 2;

/// Least free disk space the monitor asks for, in gibibytes, over all disks.
pub const MIN_DISK_GB: u64 = 10;

/// Bytes in a gibibyte.
pub const GIBIBYTE: u64 = 1_073_741_824;

/// [`MIN_MEMORY_GB`] in bytes.
pub const MIN_MEMORY_BYTES: u64 = 4 * 1_073_741_824;

/// [`MIN_DISK_GB`] in bytes.
pub const MIN_DISK_BYTES: u64 = 10 * 1_073_741_824;

/// One reading of the machine's resources. Sizes are in bytes.
#[derive(Debug, Clone)]
pub struct SystemResources {
    /// Installed memory.
    pub total_memory: u64,
    /// Memory in use.
    pub used_memory: u64,
    /// Number of processor cores.
    pub cpu_cores: usize,
    /// Free space of each disk.
    pub disks_available: Vec<u64>,
}

/// The sum of a sequence of sizes.
pub open spec fn total(sizes: Seq<u64>) -> nat
    decreases sizes.len(),
{
    if sizes.len() == 0 {
        0
    } else {
        total(sizes.drop_last()) + sizes.last() as nat
    }
}

/// Whether a reading meets the monitor's requirements: at least
/// [`MIN_MEMORY_GB`] of memory, [`MIN_CPU_CORES`] cores and
/// [`MIN_DISK_GB`] of free disk space over all disks.
pub open spec fn meets_requirements(sys: &SystemResources) -> bool {
    &&& sys.total_memory >= MIN_MEMORY_BYTES
    &&& sys.cpu_cores >= MIN_CPU_CORES
    &&& total(sys.disks_available@) >= MIN_DISK_BYTES
}

/// Memory use as a percentage in tenths of a point, rounded down; zero
/// where no memory is reported.
pub open spec fn usage_tenths(used: nat, total: nat) -> nat {
    if total == 0 {
        0
    } else {
        used * 1000 / total
    }
}

/// The free space over all disks, in bytes.
pub fn get_available_disk_space(sys: &SystemResources) -> (r: u128)
    ensures
        r as nat == total(sys.disks_available@),
{
    let mut sum: u128 = 0;
    let mut i: usize = 0;
    assert(sys.disks_available@.take(0) =~= Seq::<u64>::empty());
    while i < sys.disks_available.len()
        invariant
            i <= sys.disks_available.len(),
            sum as nat == total(sys.disks_available@.take(i as int)),
            sum <= i * 0xffff_ffff_ffff_ffff,
        decreases sys.disks_available.len() - i,
    {
        proof {
            let t = sys.disks_available@.take(i + 1);
            assert(t.drop_last() =~= sys.disks_available@.take(i as int));
            assert(t.last() == sys.disks_available@[i as int]);
            assert(i * 0xffff_ffff_ffff_ffff + 0xffff_ffff_ffff_ffff == (i + 1)
                * 0xffff_ffff_ffff_ffff) by (nonlinear_arith);
            assert((i + 1) * 0xffff_ffff_ffff_ffff <= 0xffff_ffff_ffff_ffff
                * 0xffff_ffff_ffff_ffff) by (nonlinear_arith)
                requires
                    i + 1 <= 0xffff_ffff_ffff_ffff,
            ;
        }
        sum = sum + sys.disks_available[i] as u128;
        i += 1;
    }
    assert(sys.disks_available@.take(sys.disks_available.len() as int) == sys.disks_available@);
    sum
}

/// The installed memory in whole gibibytes, rounded down.
pub fn get_total_memory_gb(sys: &SystemResources) -> (r: u64)
    ensures
        r as nat == sys.total_memory as nat / GIBIBYTE as nat,
{
    sys.total_memory / GIBIBYTE
}

/// The number of processor cores.
pub fn get_cpu_cores(sys: &SystemResources) -> (r: usize)
    ensures
        r == sys.cpu_cores,
{
    sys.cpu_cores
}

/// The free space over all disks in whole gibibytes, rounded down.
pub fn get_available_disk_space_gb(sys: &SystemResources) -> (r: u128)
    ensures
        r as nat == total(sys.disks_available@) / GIBIBYTE as nat,
{
    get_available_disk_space(sys) / (GIBIBYTE as u128)
}

/// Whether a reading meets the monitor's requirements; see
/// [`meets_requirements`].
pub fn check_system_requirements(sys: &SystemResources) -> (r: bool)
    ensures
        r == meets_requirements(sys),
{
    let disk = get_available_disk_space(sys);
    sys.total_memory >= MIN_MEMORY_BYTES && sys.cpu_cores >= MIN_CPU_CORES && disk
        >= MIN_DISK_BYTES as u128
}

/// Installed memory, memory in use, and the use as a percentage in tenths
/// of a point; see [`usage_tenths`].
pub fn get_memory_info(sys: &SystemResources) -> (r: (u64, u64, u64))
    ensures
        r.0 == sys.total_memory,
        r.1 == sys.used_memory,
        r.2 as nat == usage_tenths(sys.used_memory as nat, sys.total_memory as nat) || (r.2
            == u64::MAX && usage_tenths(sys.used_memory as nat, sys.total_memory as nat)
            > u64::MAX),
{
    let usage: u64 = if sys.total_memory == 0 {
        0
    } else {
        let exact: u128 = (sys.used_memory as u128) * 1000 / (sys.total_memory as u128);
        if exact > u64::MAX as u128 {
            u64::MAX
        } else {
            exact as u64
        }
    };
    (sys.total_memory, sys.used_memory, usage)
}

} // verus!
