use vstd::prelude::*;

use super::config::SATP_MODE_SV39;

verus! {

/// In-memory image of the translation register: mode, ASID and root page number.
#[derive(Clone, Copy, Debug, PartialEq, Eq, Structural)]
pub struct satp_t {
    pub words: u64,
}

pub open spec fn satp_word(mode: u64, asid: u64, ppn: u64) -> u64 {
    ((mode & 0xf) << 60) | ((asid & 0xffff) << 44) | (ppn & 0xfff_ffff_ffff)
}

pub open spec fn satp_mode(w: u64) -> u64 {
    w >> 60
}

pub open spec fn satp_asid(w: u64) -> u64 {
    (w >> 44) & 0xffff
}

pub open spec fn satp_ppn(w: u64) -> u64 {
    w & 0xfff_ffff_ffff
}

impl satp_t {
    pub fn new(mode: u64, asid: u64, ppn: u64) -> (r: Self)
        ensures
            r.words == satp_word(mode, asid, ppn),
            satp_mode(r.words) == mode & 0xf,
            satp_asid(r.words) == asid & 0xffff,
            satp_ppn(r.words) == ppn & 0xfff_ffff_ffff,
    {
        assert({
            let w = ((mode & 0xf) << 60) | ((asid & 0xffff) << 44) | (ppn & 0xfff_ffff_ffff);
            &&& w >> 60 == mode & 0xf
            &&& (w >> 44) & 0xffff == asid & 0xffff
            &&& w & 0xfff_ffff_ffff == ppn & 0xfff_ffff_ffff
        }) by (bit_vector);
        satp_t {
            words: ((mode & 0xf) << 60u64) | ((asid & 0xffff) << 44u64) | (ppn & 0xfff_ffff_ffff),
        }
    }
}

/// The register image that selects the root table at physical address
/// `addr` under `asid`, in the three-level mode.
pub fn satp_for_root(addr: u64, asid: u64) -> (r: satp_t)
    ensures
        r.words == satp_word(SATP_MODE_SV39, asid, addr >> 12),
{
    satp_t::new(SATP_MODE_SV39, asid, addr >> 12u64)
}

} // verus!
