//! Memory and disk readings over `sysinfo`. The numbers come from the
//! machine; what the library makes of them is stated exactly, and every
//! function that reads the machine says what holds of whatever it read.

use vstd::prelude::*;
use crate::ipc_types::{DiskStatus, MemStatus};
use crate::text::prefixed;
use sysinfo::{Disk, Disks, MemoryRefreshKind, RefreshKind, System};

verus! {

#[verifier::external_type_specification]
#[verifier::external_body]
pub struct ExSystem(System);

#[verifier::external_type_specification]
#[verifier::external_body]
pub struct ExDisks(Disks);

#[verifier::external_type_specification]
#[verifier::external_body]
pub struct ExDisk(Disk);

/// Errors of the monitoring queries.
#[derive(Debug, Clone)]
pub enum SysmonError {
    ReadError(String),
}

/// What a monitoring error says.
pub open spec fn sysmon_error_text(e: SysmonError) -> Seq<char> {
    match e {
        SysmonError::ReadError(m) => "failed to read system info: "@ + m@,
    }
}

impl SysmonError {
    /// The error's text.
    pub fn message(&self) -> (m: String)
        ensures
            m@ == sysmon_error_text(*self),
    {
        match self {
            SysmonError::ReadError(m) => prefixed("failed to read system info: ", m.as_str()),
        }
    }
}

// ── Memory ───────────────────────────────────────────────────────────────────

/// A byte count in whole KiB, rounded down.
pub open spec fn kib(bytes: u64) -> u64 {
    bytes / 1024
}

/// The memory status made of five byte counts: each field is its count in KiB.
pub open spec fn mem_status_of(total: u64, used: u64, available: u64, swap_total: u64, swap_used: u64) -> MemStatus {
    MemStatus {
        total_kb: kib(total),
        used_kb: kib(used),
        available_kb: kib(available),
        swap_total_kb: kib(swap_total),
        swap_used_kb: kib(swap_used),
    }
}

/// Builds the memory status from the five byte counts the system reports.
pub fn mem_status_from_bytes(total: u64, used: u64, available: u64, swap_total: u64, swap_used: u64) -> (m: MemStatus)
    ensures
        m == mem_status_of(total, used, available, swap_total, swap_used),
{
    MemStatus {
        total_kb: total / 1024,
        used_kb: used / 1024,
        available_kb: available / 1024,
        swap_total_kb: swap_total / 1024,
        swap_used_kb: swap_used / 1024,
    }
}

/// `System::total_memory`: the RAM size in bytes, as last refreshed.
#[verifier::external_body]
fn total_memory(sys: &System) -> u64 {
    sys.total_memory()
}

/// `System::used_memory`: the RAM in use, in bytes.
#[verifier::external_body]
fn used_memory(sys: &System) -> u64 {
    sys.used_memory()
}

/// `System::available_memory`: the RAM available for reuse, in bytes.
#[verifier::external_body]
fn available_memory(sys: &System) -> u64 {
    sys.available_memory()
}

/// `System::total_swap`: the swap size in bytes.
#[verifier::external_body]
fn total_swap(sys: &System) -> u64 {
    sys.total_swap()
}

/// `System::used_swap`: the swap in use, in bytes.
#[verifier::external_body]
fn used_swap(sys: &System) -> u64 {
    sys.used_swap()
}

/// The memory status of a refreshed system: each field is the matching
/// reading of `sys` in KiB.
pub fn build_mem_status(sys: &System) -> (m: MemStatus)
    ensures
        exists|t: u64, u: u64, a: u64, st: u64, su: u64| m == mem_status_of(t, u, a, st, su),
{
    let t = total_memory(sys);
    let u = used_memory(sys);
    let a = available_memory(sys);
    let st = total_swap(sys);
    let su = used_swap(sys);
    let m = mem_status_from_bytes(t, u, a, st, su);
    assert(m == mem_status_of(t, u, a, st, su));
    m
}

/// `System::new_with_specifics` with memory readings enabled.
#[verifier::external_body]
fn memory_system() -> System {
    System::new_with_specifics(RefreshKind::new().with_memory(MemoryRefreshKind::everything()))
}

/// `System::refresh_memory`: reads the memory counters again.
#[verifier::external_body]
fn refresh_memory(sys: &mut System) {
    sys.refresh_memory();
}

/// The current memory status of the machine.
pub fn get_mem() -> (m: MemStatus)
    ensures
        exists|t: u64, u: u64, a: u64, st: u64, su: u64| m == mem_status_of(t, u, a, st, su),
{
    let mut sys = memory_system();
    refresh_memory(&mut sys);
    build_mem_status(&sys)
}

// ── Disks ────────────────────────────────────────────────────────────────────

/// What the system reports of one mounted disk.
#[derive(Debug, Clone)]
pub struct DiskReading {
    pub mount: String,
    pub total_space: u64,
    pub available_space: u64,
    pub file_system: String,
}

/// `d` describes the disk read as `r`: same mount point, sizes and file
/// system, and the used space is the total less the available space, or 0
/// when more is available than the total.
pub open spec fn describes_disk(d: DiskStatus, r: DiskReading) -> bool {
    &&& d.mount@ == r.mount@
    &&& d.total_bytes == r.total_space
    &&& d.available_bytes == r.available_space
    &&& d.used_bytes == (if r.total_space >= r.available_space { (r.total_space - r.available_space) as u64 } else { 0u64 })
    &&& d.filesystem is Some
    &&& d.filesystem->Some_0@ == r.file_system@
}

/// The status of one disk from its reading.
pub fn disk_status_from(r: &DiskReading) -> (d: DiskStatus)
    ensures
        describes_disk(d, *r),
{
    DiskStatus {
        mount: r.mount.clone(),
        total_bytes: r.total_space,
        used_bytes: r.total_space.saturating_sub(r.available_space),
        available_bytes: r.available_space,
        filesystem: Some(r.file_system.clone()),
    }
}

/// The status of each disk read, in the order read.
pub fn disk_statuses(readings: &Vec<DiskReading>) -> (v: Vec<DiskStatus>)
    ensures
        v.len() == readings.len(),
        forall|i: int| 0 <= i < v.len() ==> describes_disk(#[trigger] v@[i], readings@[i]),
{
    let mut v: Vec<DiskStatus> = Vec::new();
    let mut i: usize = 0;
    while i < readings.len()
        invariant
            i <= readings.len(),
            v.len() == i,
            forall|j: int| 0 <= j < i ==> describes_disk(#[trigger] v@[j], readings@[j]),
        decreases readings.len() - i,
    {
        let d = disk_status_from(&readings[i]);
        v.push(d);
        i = i + 1;
    }
    v
}

/// `Disks::new_with_refreshed_list`: the disks mounted now.
#[verifier::external_body]
fn refreshed_disks() -> Disks {
    Disks::new_with_refreshed_list()
}

/// `Disks::list`, each disk taken by its mount point, total and available
/// space and file system name.
#[verifier::external_body]
fn disk_readings(disks: &Disks) -> Vec<DiskReading> {
    disks.list().iter().map(|d| DiskReading {
        mount: d.mount_point().to_string_lossy().to_string(),
        total_space: d.total_space(),
        available_space: d.available_space(),
        file_system: d.file_system().to_string_lossy().to_string(),
    }).collect()
}

/// The status of every disk mounted now, one entry per disk the system lists.
pub fn build_disk_status() -> (v: Vec<DiskStatus>)
    ensures
        exists|rs: Seq<DiskReading>|
            v.len() == rs.len() && forall|i: int| 0 <= i < v.len() ==> describes_disk(#[trigger] v@[i], rs[i]),
{
    let disks = refreshed_disks();
    let readings = disk_readings(&disks);
    let v = disk_statuses(&readings);
    assert(v.len() == readings@.len() && forall|i: int| 0 <= i < v.len() ==> describes_disk(#[trigger] v@[i], readings@[i]));
    v
}

/// The status of every disk mounted now.
pub fn get_disks() -> (v: Vec<DiskStatus>)
    ensures
        exists|rs: Seq<DiskReading>|
            v.len() == rs.len() && forall|i: int| 0 <= i < v.len() ==> describes_disk(#[trigger] v@[i], rs[i]),
{
    build_disk_status()
}

} // verus!
