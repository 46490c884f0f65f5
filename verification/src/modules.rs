pub mod battery;
pub mod cpu;
pub mod disks;
pub mod memory;
pub mod provider;
pub mod sysread;
