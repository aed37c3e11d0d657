pub mod config;
pub mod machine;
pub mod pte;
pub mod structures;
pub mod utils;
pub mod interface;
pub mod boot;
pub mod device;
