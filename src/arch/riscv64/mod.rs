pub mod boot;
pub mod config;
pub mod device;
pub mod pagetable;
pub mod pte;
pub mod satp;
pub mod utils;
pub mod interface;
pub mod asid;
