//! Architecture-specific virtual-memory core of a microkernel: page-table
//! entry codecs, page-table walks over a bounds-checked table arena, the
//! kernel address-space builders, the ASID directory, and the decisions
//! behind translation-root activation and cache maintenance.
#![allow(non_snake_case)]
#![allow(non_camel_case_types)]
#![allow(non_upper_case_globals)]

use vstd::prelude::*;

pub mod arch;
pub mod asid;
pub mod memory;
pub mod structures;
pub mod utils;
