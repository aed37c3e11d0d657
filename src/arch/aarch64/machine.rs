//! Translation-register values and the plans of cache maintenance: which
//! maintenance instruction runs on which cache line, in order.
use vstd::prelude::*;

use super::config::CONFIG_L1_CACHE_LINE_SIZE_BITS;

verus! {

/// Memory types, by their index in the memory-attribute register.
#[derive(Clone, Copy, Debug, PartialEq, Eq, Structural)]
pub enum mair_types {
    DEVICE_nGnRnE,
    DEVICE_nGnRE,
    DEVICE_GRE,
    NORMAL_NC,
    NORMAL,
    NORMAL_WT,
}

impl mair_types {
    pub open spec fn spec_index(self) -> u64 {
        match self {
            mair_types::DEVICE_nGnRnE => 0,
            mair_types::DEVICE_nGnRE => 1,
            mair_types::DEVICE_GRE => 2,
            mair_types::NORMAL_NC => 3,
            mair_types::NORMAL => 4,
            mair_types::NORMAL_WT => 5,
        }
    }

    /// Index of the type in the memory-attribute register.
    pub fn index(&self) -> (r: u64)
        ensures
            r == self.spec_index(),
    {
        match self {
            mair_types::DEVICE_nGnRnE => 0,
            mair_types::DEVICE_nGnRE => 1,
            mair_types::DEVICE_GRE => 2,
            mair_types::NORMAL_NC => 3,
            mair_types::NORMAL => 4,
            mair_types::NORMAL_WT => 5,
        }
    }
}

/// Kinds of cache at a level, as the cache-level register encodes them.
#[derive(Clone, Copy, Debug, PartialEq, Eq, Structural)]
pub enum arm_cache_type {
    ARMCacheI,
    ARMCacheD,
    ARMCacheID,
}

impl arm_cache_type {
    /// The encoding: 1 instruction, 2 data, 3 unified.
    pub fn value(&self) -> (r: u64)
        ensures
            r == match self {
                arm_cache_type::ARMCacheI => 1u64,
                arm_cache_type::ARMCacheD => 2u64,
                arm_cache_type::ARMCacheID => 3u64,
            },
    {
        match self {
            arm_cache_type::ARMCacheI => 1,
            arm_cache_type::ARMCacheD => 2,
            arm_cache_type::ARMCacheID => 3,
        }
    }
}

pub open spec fn ttbr_word(asid: u64, addr: u64) -> u64 {
    ((asid & 0xffff) << 48) | (addr & 0xffff_ffff_ffff)
}

/// Translation-base register value: the ASID in bits 63..48, the table's
/// physical address below.
pub fn ttbr_new(asid: u64, addr: u64) -> (r: u64)
    ensures
        r == ttbr_word(asid, addr),
        r >> 48 == asid & 0xffff,
        r & 0xffff_ffff_ffff == addr & 0xffff_ffff_ffff,
{
    assert({
        let w = ((asid & 0xffff) << 48) | (addr & 0xffff_ffff_ffff);
        w >> 48 == asid & 0xffff && w & 0xffff_ffff_ffff == addr & 0xffff_ffff_ffff
    }) by (bit_vector);
    ((asid & 0xffff) << 48u64) | (addr & 0xffff_ffff_ffff)
}

/// One maintenance instruction.
#[derive(Clone, Copy, Debug, PartialEq, Eq, Structural)]
pub enum CacheOp {
    /// Clean a data line to the point of unification.
    CleanPoU(u64),
    /// Clean a data line to the point of coherency.
    Clean(u64),
    /// Invalidate a data line.
    Invalidate(u64),
    /// Clean and invalidate a data line.
    CleanInvalidate(u64),
    /// Invalidate an instruction line.
    InvalidateI(u64),
    /// Data synchronization barrier.
    Dsb,
    /// Instruction synchronization barrier.
    Isb,
}

/// Kinds of per-line maintenance.
#[derive(Clone, Copy, Debug, PartialEq, Eq, Structural)]
pub enum LineOp {
    CleanPoU,
    Clean,
    Invalidate,
    CleanInvalidate,
    InvalidateI,
}

pub open spec fn line_op(kind: LineOp, line: u64) -> CacheOp {
    match kind {
        LineOp::CleanPoU => CacheOp::CleanPoU(line),
        LineOp::Clean => CacheOp::Clean(line),
        LineOp::Invalidate => CacheOp::Invalidate(line),
        LineOp::CleanInvalidate => CacheOp::CleanInvalidate(line),
        LineOp::InvalidateI => CacheOp::InvalidateI(line),
    }
}

/// First address of the line that holds `a`.
pub open spec fn line_start(a: u64) -> int {
    (a as int / 64) * 64
}

/// One operation per line from the line of `start` to the line of `end`,
/// both included, in address order; none when `end` lies below the line of
/// `start`.
pub open spec fn lines(kind: LineOp, start: u64, end: u64) -> Seq<CacheOp> {
    let first = start as int / 64;
    let last = end as int / 64;
    if last < first {
        Seq::empty()
    } else {
        Seq::new((last - first + 1) as nat, |i: int| line_op(kind, ((first + i) * 64) as u64))
    }
}

proof fn lemma_word_fields(a: u64)
    by (bit_vector)
    ensures
        a & !63u64 == (a / 64) * 64,
        a >> 6u64 == a / 64,
        (a >> 24u64) & 7 < 8,
        a & 7 <= 7,
        (a >> 3u64) & 0x3ff <= 0x3ff,
        (a >> 13u64) & 0x7fff <= 0x7fff,
{
}

pub fn LINE_START(a: u64) -> (r: u64)
    ensures
        r == line_start(a),
{
    proof {
        lemma_word_fields(a);
    }
    a & !63u64
}

pub fn LINE_INDEX(a: u64) -> (r: u64)
    ensures
        r == a / 64,
{
    proof {
        lemma_word_fields(a);
    }
    a >> CONFIG_L1_CACHE_LINE_SIZE_BITS
}

fn make_line_op(kind: LineOp, line: u64) -> (r: CacheOp)
    ensures
        r == line_op(kind, line),
{
    match kind {
        LineOp::CleanPoU => CacheOp::CleanPoU(line),
        LineOp::Clean => CacheOp::Clean(line),
        LineOp::Invalidate => CacheOp::Invalidate(line),
        LineOp::CleanInvalidate => CacheOp::CleanInvalidate(line),
        LineOp::InvalidateI => CacheOp::InvalidateI(line),
    }
}

/// Appends one operation of `kind` per line of `[start, end]`.
fn push_lines(ops: &mut Vec<CacheOp>, kind: LineOp, start: u64, end: u64)
    ensures
        final(ops)@ == old(ops)@ + lines(kind, start, end),
{
    let first = LINE_INDEX(start);
    let last = LINE_INDEX(end);
    let ghost base = ops@;
    if last < first {
        assert(lines(kind, start, end) =~= Seq::<CacheOp>::empty());
        assert(base + Seq::<CacheOp>::empty() =~= base);
        return;
    }
    let mut idx = first;
    while idx <= last
        invariant
            first <= idx <= last + 1,
            last == end as int / 64,
            first == start as int / 64,
            last < 0x400_0000_0000_0000,
            ops@ =~= base + Seq::new((idx - first) as nat, |i: int| line_op(kind, ((first + i) * 64) as u64)),
        decreases last + 1 - idx,
    {
        let op = make_line_op(kind, idx * 64);
        ops.push(op);
        idx = idx + 1;
    }
}

/// Invalidates the instruction lines of `[start, end]`.
pub fn invalidate_cache_range_i(start: u64, end: u64) -> (r: Vec<CacheOp>)
    ensures
        r@ == lines(LineOp::InvalidateI, start, end),
{
    let mut ops: Vec<CacheOp> = Vec::new();
    push_lines(&mut ops, LineOp::InvalidateI, start, end);
    ops
}

/// Cleans the data lines of `[start, end]` to the point of coherency.
pub fn clean_cache_range_poc(start: u64, end: u64) -> (r: Vec<CacheOp>)
    ensures
        r@ == lines(LineOp::Clean, start, end),
{
    let mut ops: Vec<CacheOp> = Vec::new();
    push_lines(&mut ops, LineOp::Clean, start, end);
    ops
}

/// Cleans the data lines of `[start, end]` to the point of unification.
pub fn clean_cache_range_pou(start: u64, end: u64) -> (r: Vec<CacheOp>)
    ensures
        r@ == lines(LineOp::CleanPoU, start, end),
{
    let mut ops: Vec<CacheOp> = Vec::new();
    push_lines(&mut ops, LineOp::CleanPoU, start, end);
    ops
}

pub open spec fn clean_ram_plan(start: u64, end: u64) -> Seq<CacheOp> {
    lines(LineOp::Clean, start, end).push(CacheOp::Dsb)
}

/// Cleans `[start, end]` to memory: each line to the point of coherency,
/// then a barrier. `_pstart`, the physical address of `start`, would steer
/// the outer cache; this platform has none.
pub fn clean_cache_range_ram(start: u64, end: u64, _pstart: u64) -> (r: Vec<CacheOp>)
    ensures
        r@ == clean_ram_plan(start, end),
{
    let mut ops: Vec<CacheOp> = Vec::new();
    push_lines(&mut ops, LineOp::Clean, start, end);
    ops.push(CacheOp::Dsb);
    ops
}

pub open spec fn clean_invalidate_ram_plan(start: u64, end: u64) -> Seq<CacheOp> {
    (lines(LineOp::Clean, start, end).push(CacheOp::Dsb) + lines(LineOp::CleanInvalidate, start, end)).push(
        CacheOp::Dsb,
    )
}

/// Cleans and invalidates `[start, end]`: clean each line, a barrier, then
/// clean and invalidate each line, and a barrier. `_pstart` is as for
/// `clean_cache_range_ram`.
pub fn clean_invalidate_cache_range_ram(start: u64, end: u64, _pstart: u64) -> (r: Vec<CacheOp>)
    ensures
        r@ == clean_invalidate_ram_plan(start, end),
{
    let mut ops: Vec<CacheOp> = Vec::new();
    push_lines(&mut ops, LineOp::Clean, start, end);
    ops.push(CacheOp::Dsb);
    push_lines(&mut ops, LineOp::CleanInvalidate, start, end);
    ops.push(CacheOp::Dsb);
    ops
}

pub open spec fn invalidate_ram_plan(start: u64, end: u64) -> Seq<CacheOp> {
    let head = if start as int != line_start(start) {
        clean_ram_plan(start, end)
    } else {
        Seq::empty()
    };
    let tail_line = line_start(end) as u64;
    let tail = if end as int + 1 != line_start((end + 1) as u64) {
        clean_ram_plan(tail_line, tail_line)
    } else {
        Seq::empty()
    };
    (head + tail + lines(LineOp::Invalidate, start, end)).push(CacheOp::Dsb)
}

/// Invalidates `[start, end]`. A partial line at either end is cleaned
/// first so that data outside the range sharing that line is not lost.
/// `_pstart` is as for `clean_cache_range_ram`.
pub fn invalidate_cache_range_ram(start: u64, end: u64, _pstart: u64) -> (r: Vec<CacheOp>)
    requires
        end < u64::MAX,
    ensures
        r@ == invalidate_ram_plan(start, end),
{
    let mut ops: Vec<CacheOp> = Vec::new();
    if start != LINE_START(start) {
        push_lines(&mut ops, LineOp::Clean, start, end);
        ops.push(CacheOp::Dsb);
    }
    let ghost head = ops@;
    if end + 1 != LINE_START(end + 1) {
        let line = LINE_START(end);
        push_lines(&mut ops, LineOp::Clean, line, line);
        ops.push(CacheOp::Dsb);
    }
    push_lines(&mut ops, LineOp::Invalidate, start, end);
    ops.push(CacheOp::Dsb);
    proof {
        let tail_line = line_start(end) as u64;
        if start as int != line_start(start) {
            assert(head =~= clean_ram_plan(start, end));
        } else {
            assert(head =~= Seq::<CacheOp>::empty());
        }
        assert(ops@ =~= invalidate_ram_plan(start, end));
    }
    ops
}

pub open spec fn spec_loc(x: u64) -> u64 {
    (x >> 24) & 7
}

pub open spec fn spec_ctype(x: u64, n: u64) -> u64 {
    (x >> (n * 3)) & 7
}

/// Level of coherence, from the cache-level register.
pub fn loc(x: u64) -> (r: u64)
    ensures
        r == spec_loc(x),
        r < 8,
{
    proof {
        lemma_word_fields(x);
    }
    (x >> 24u64) & 7
}

/// Cache type of level `n`, from the cache-level register.
pub fn ctype(x: u64, n: u64) -> (r: u64)
    requires
        n < 8,
    ensures
        r == spec_ctype(x, n),
{
    (x >> (n * 3)) & 7
}

/// Bits of a line offset, from a cache-size register.
pub fn line_bits(s: u64) -> (r: u64)
    ensures
        r == (s & 7) + 4,
        r <= 11,
{
    proof {
        lemma_word_fields(s);
    }
    (s & 7) + 4
}

/// Associativity, from a cache-size register.
pub fn assoc(s: u64) -> (r: u64)
    ensures
        r == ((s >> 3) & 0x3ff) + 1,
        1 <= r <= 0x400,
{
    proof {
        lemma_word_fields(s);
    }
    ((s >> 3u64) & 0x3ff) + 1
}

/// Number of sets, from a cache-size register.
pub fn nsets(s: u64) -> (r: u64)
    ensures
        r == ((s >> 13) & 0x7fff) + 1,
        1 <= r <= 0x8000,
{
    proof {
        lemma_word_fields(s);
    }
    ((s >> 13u64) & 0x7fff) + 1
}

/// The cache levels below the level of coherence that hold data, in
/// order: those to clean and invalidate by set and way.
pub open spec fn data_levels(clid: u64) -> Seq<u64> {
    Seq::new(spec_loc(clid) as nat, |l: int| l as u64).filter(|l: u64| spec_ctype(clid, l) > 1)
}

/// The data cache levels to clean and invalidate, given the cache-level register.
pub fn clean_invalidate_d_poc(clid: u64) -> (r: Vec<u64>)
    ensures
        r@ == data_levels(clid),
{
    let n = loc(clid);
    let mut levels: Vec<u64> = Vec::new();
    let mut l: u64 = 0;
    while l < n
        invariant
            l <= n,
            n == spec_loc(clid),
            n < 8,
            levels@ == Seq::new(l as nat, |i: int| i as u64).filter(|x: u64| spec_ctype(clid, x) > 1),
        decreases n - l,
    {
        let ghost prev = Seq::new(l as nat, |i: int| i as u64);
        assert(Seq::new((l + 1) as nat, |i: int| i as u64) =~= prev.push(l));
        proof {
            reveal(Seq::filter);
            assert(prev.push(l).drop_last() =~= prev);
        }
        if ctype(clid, l) > 1 {
            levels.push(l);
        }
        l = l + 1;
    }
    levels
}

/// Number of bits needed to write `x`.
pub open spec fn bit_len(x: u64) -> nat
    decreases x,
{
    if x == 0 {
        0
    } else {
        1 + bit_len(x / 2)
    }
}

/// Operand of a clean-and-invalidate by set and way: the way in the top
/// bits of the low word, the set above the line offset, the level above bit 0.
pub open spec fn set_way_word(way: u64, set: u64, level: u64, lbits: u64, abits: nat) -> u64 {
    ((way << ((32 - abits) as u64)) | (set << lbits) | (level << 1)) as u64
}

proof fn lemma_bit_len_le(x: u64, k: nat)
    requires
        x < vstd::arithmetic::power2::pow2(k),
    ensures
        bit_len(x) <= k,
    decreases k,
{
    if x != 0 {
        if k == 0 {
            vstd::arithmetic::power2::lemma2_to64();
        } else {
            vstd::arithmetic::power2::lemma_pow2_unfold(k);
            lemma_bit_len_le(x / 2, (k - 1) as nat);
        }
    }
}

/// The set/way operands that clean and invalidate every line of cache
/// level `l`, whose size register reads `lsize`: way by way, set by set.
pub fn clean_invalidate_d_by_level(l: u64, lsize: u64) -> (r: Vec<u64>)
    requires
        l < 8,
    ensures
        ({
            let lbits = (lsize & 7) + 4;
            let ways = ((lsize >> 3) & 0x3ff) + 1;
            let sets = ((lsize >> 13) & 0x7fff) + 1;
            let abits = bit_len((ways - 1) as u64);
            &&& r@.len() == ways * sets
            &&& forall|i: int|
                0 <= i < r@.len() ==> #[trigger] r@[i] == set_way_word(
                    (i / sets as int) as u64,
                    (i % sets as int) as u64,
                    l,
                    lbits as u64,
                    abits,
                )
        }),
{
    let lbits = line_bits(lsize);
    let ways = assoc(lsize);
    let sets = nsets(lsize);
    let mut x = ways - 1;
    let mut abits: u64 = 0;
    proof {
        vstd::arithmetic::power2::lemma2_to64();
        lemma_bit_len_le(x, 10);
    }
    while x > 0
        invariant
            abits + bit_len(x) == bit_len((ways - 1) as u64),
            bit_len((ways - 1) as u64) <= 10,
        decreases x,
    {
        x = x / 2;
        abits = abits + 1;
    }
    let ghost ab = abits as nat;
    let mut ops: Vec<u64> = Vec::new();
    let mut w: u64 = 0;
    while w < ways
        invariant
            w <= ways,
            ways <= 0x400,
            1 <= sets <= 0x8000,
            abits <= 10,
            ab == abits,
            l < 8,
            lbits <= 11,
            ops@.len() == w * sets,
            forall|i: int|
                0 <= i < ops@.len() ==> #[trigger] ops@[i] == set_way_word(
                    (i / sets as int) as u64,
                    (i % sets as int) as u64,
                    l,
                    lbits,
                    ab,
                ),
        decreases ways - w,
    {
        let mut s: u64 = 0;
        while s < sets
            invariant
                w < ways,
                ways <= 0x400,
                1 <= sets <= 0x8000,
                s <= sets,
                abits <= 10,
                ab == abits,
                l < 8,
                lbits <= 11,
                ops@.len() == w * sets + s,
                forall|i: int|
                    0 <= i < ops@.len() ==> #[trigger] ops@[i] == set_way_word(
                        (i / sets as int) as u64,
                        (i % sets as int) as u64,
                        l,
                        lbits,
                        ab,
                    ),
            decreases sets - s,
        {
            let ghost i = ops@.len() as int;
            proof {
                assert(i / sets as int == w && i % sets as int == s) by (nonlinear_arith)
                    requires
                        i == w * sets + s,
                        s < sets,
                        0 <= s,
                        0 <= w,
                ;
                assert(w * sets + s + 1 <= 0x400 * 0x8000) by (nonlinear_arith)
                    requires
                        w < ways,
                        ways <= 0x400,
                        s < sets,
                        sets <= 0x8000,
                ;
            }
            ops.push((w << (32 - abits)) | (s << lbits) | (l << 1));
            s = s + 1;
        }
        proof {
            assert(ops@.len() == (w + 1) * sets) by (nonlinear_arith)
                requires
                    ops@.len() == w * sets + sets,
            ;
        }
        w = w + 1;
    }
    ops
}

} // verus!
