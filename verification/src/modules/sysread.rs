//! Trusted access to the system-information library: the `System` handle
//! and the raw memory and processor readings that the providers model.
//! Every value read here depends on the machine, so nothing is promised of
//! the readings themselves.

use vstd::prelude::*;

verus! {

#[verifier::external_type_specification]
#[verifier::external_body]
pub struct ExSystem(sysinfo::System);

/// Relies on sysinfo::System::new: a fresh handle with nothing refreshed.
#[verifier::external_body]
pub fn sys_new() -> sysinfo::System {
    sysinfo::System::new()
}

/// Relies on sysinfo::System::refresh_memory.
#[verifier::external_body]
pub fn sys_refresh_memory(s: &mut sysinfo::System) {
    s.refresh_memory();
}

/// Relies on sysinfo::System::total_memory: total RAM in bytes.
#[verifier::external_body]
pub fn sys_total_memory(s: &sysinfo::System) -> u64 {
    s.total_memory()
}

/// Relies on sysinfo::System::used_memory: used RAM in bytes.
#[verifier::external_body]
pub fn sys_used_memory(s: &sysinfo::System) -> u64 {
    s.used_memory()
}

/// Relies on sysinfo::System::total_swap: total swap in bytes.
#[verifier::external_body]
pub fn sys_total_swap(s: &sysinfo::System) -> u64 {
    s.total_swap()
}

/// Relies on sysinfo::System::used_swap: used swap in bytes.
#[verifier::external_body]
pub fn sys_used_swap(s: &sysinfo::System) -> u64 {
    s.used_swap()
}

/// Relies on sysinfo::System::refresh_cpu_all.
#[verifier::external_body]
pub fn sys_refresh_cpu_all(s: &mut sysinfo::System) {
    s.refresh_cpu_all();
}

/// Relies on sysinfo::System::refresh_cpu_usage. An accurate usage reading
/// takes two refreshes a short pause apart; the caller owns the pause.
#[verifier::external_body]
pub fn sys_refresh_cpu_usage(s: &mut sysinfo::System) {
    s.refresh_cpu_usage();
}

/// Relies on sysinfo::Cpu::brand, read from the first processor; an empty
/// string when none is listed.
#[verifier::external_body]
pub fn sys_cpu_brand(s: &sysinfo::System) -> String {
    s.cpus().first().map_or(String::new(), |c| c.brand().to_string())
}

/// Relies on sysinfo::Cpu::vendor_id, read from the first processor; an
/// empty string when none is listed.
#[verifier::external_body]
pub fn sys_cpu_vendor(s: &sysinfo::System) -> String {
    s.cpus().first().map_or(String::new(), |c| c.vendor_id().to_string())
}

/// Relies on sysinfo::Cpu::frequency, read from the first processor, in
/// MHz; zero when none is listed.
#[verifier::external_body]
pub fn sys_cpu_frequency(s: &sysinfo::System) -> u64 {
    s.cpus().first().map_or(0, |c| c.frequency())
}

/// Relies on sysinfo::System::cpus: the logical processor count.
#[verifier::external_body]
pub fn sys_cpu_thread_count(s: &sysinfo::System) -> usize {
    s.cpus().len()
}

/// Relies on sysinfo::System::physical_core_count.
#[verifier::external_body]
pub fn sys_physical_core_count() -> Option<usize> {
    sysinfo::System::physical_core_count()
}

/// Relies on sysinfo::System::cpu_arch: the host architecture name.
#[verifier::external_body]
pub fn sys_cpu_arch() -> String {
    sysinfo::System::cpu_arch()
}

/// Relies on sysinfo::System::global_cpu_usage: the usage percentage since
/// the previous refresh, rendered with one decimal place.
#[verifier::external_body]
pub fn sys_global_cpu_usage_str(s: &sysinfo::System) -> String {
    format!("{:.1}", s.global_cpu_usage())
}

} // verus!
