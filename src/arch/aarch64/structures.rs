use vstd::prelude::*;

use super::machine::mair_types;
use crate::structures::vm_attributes_t;

verus! {

impl vm_attributes_t {
    /// Bit 2: the mapping may not be executed.
    pub fn get_arm_execute_never(&self) -> (r: bool)
        ensures
            r == (self.0 & 4 != 0),
    {
        (self.0 & 0x4) != 0
    }

    /// Bit 0: the mapping is cacheable.
    pub fn get_arm_page_cachable(&self) -> (r: bool)
        ensures
            r == (self.0 & 1 != 0),
    {
        (self.0 & 0x1) != 0
    }

    /// Normal memory for a cacheable mapping, strongly ordered device memory otherwise.
    pub fn get_attr_index(&self) -> (r: mair_types)
        ensures
            r == if self.0 & 1 != 0 {
                mair_types::NORMAL
            } else {
                mair_types::DEVICE_nGnRnE
            },
    {
        if self.get_arm_page_cachable() {
            return mair_types::NORMAL;
        }
        mair_types::DEVICE_nGnRnE
    }
}

} // verus!
