//! Byte-addressed shadow of the register space, with an ordered access log.
//!
//! The store is little-endian and byte-granular, so accesses of different
//! widths at overlapping addresses see one another's bytes. Every `store` and
//! `load` is appended to the log; `poke` / `peek` touch the bytes only.
use std::collections::BTreeMap;
use vstd::prelude::*;

verus! {

broadcast use vstd::laws_cmp::group_laws_cmp;

/// A single recorded register access.
#[derive(Clone, Copy, PartialEq, Eq, Debug, Structural)]
pub struct Access {
    /// `true` for a write, `false` for a read.
    pub write: bool,
    /// Access width in bytes (1, 2 or 4).
    pub width: u8,
    pub addr: usize,
    /// Value written, or value returned by the read.
    pub val: u32,
}

/// The shadow register space: its bytes and the log of accesses made to it.
pub struct Shadow {
    mem: BTreeMap<usize, u8>,
    log: Vec<Access>,
}

/// Byte `k` (little-endian) of `val`.
pub open spec fn spec_byte(val: u32, k: nat) -> u8 {
    (val >> ((8 * k) as u32)) as u8
}

/// The byte stored at `a`; bytes never written read as zero.
pub open spec fn spec_byte_at(mem: Map<usize, u8>, a: int) -> u8 {
    if mem.contains_key(a as usize) { mem[a as usize] } else { 0 }
}

/// An access of `width` bytes at `addr` stays inside the address space, and
/// the width is at most a word.
pub open spec fn access_ok(addr: usize, width: u8) -> bool {
    &&& width <= 4
    &&& addr + width <= usize::MAX + 1
}

/// `mem` after the `width` low bytes of `val` are written from `addr` upward.
pub open spec fn spec_store(mem: Map<usize, u8>, addr: usize, val: u32, width: nat) -> Map<usize, u8> {
    mem.union_prefer_right(
        Map::new(|a: usize| addr <= a < addr + width, |a: usize| spec_byte(val, (a - addr) as nat)),
    )
}

/// The little-endian value of the `width` bytes from `addr` upward.
pub open spec fn spec_read(mem: Map<usize, u8>, addr: usize, width: nat) -> u32
    decreases width,
{
    if width == 0 {
        0
    } else {
        spec_read(mem, addr, (width - 1) as nat) | ((spec_byte_at(mem, addr + width - 1) as u32)
            << ((8 * (width - 1)) as u32))
    }
}

/// The low `width` bytes of `val`.
pub open spec fn spec_truncate(val: u32, width: nat) -> u32 {
    if width == 0 {
        0
    } else if width == 1 {
        val & 0xff
    } else if width == 2 {
        val & 0xffff
    } else if width == 3 {
        val & 0xff_ffff
    } else {
        val
    }
}

impl Shadow {
    /// The bytes of the register space that have been written.
    pub closed spec fn mem(&self) -> Map<usize, u8> {
        self.mem@
    }

    /// The accesses made so far, oldest first.
    pub closed spec fn trace(&self) -> Seq<Access> {
        self.log@
    }
}

/// An empty shadow: every byte reads as zero and nothing is logged.
pub fn new() -> (s: Shadow)
    ensures
        s.mem() == Map::<usize, u8>::empty(),
        s.trace() == Seq::<Access>::empty(),
{
    Shadow { mem: BTreeMap::new(), log: Vec::new() }
}

/// Write the `width` low bytes of `val` from `addr` upward, without logging.
fn write_bytes(s: &mut Shadow, addr: usize, val: u32, width: u8)
    requires
        access_ok(addr, width),
    ensures
        final(s).mem() == spec_store(old(s).mem(), addr, val, width as nat),
        final(s).trace() == old(s).trace(),
{
    let ghost mem0 = s.mem@;
    let w = width as usize;
    let mut i: usize = 0;
    while i < w
        invariant
            w == width,
            access_ok(addr, width),
            i <= w,
            s.log@ == old(s).log@,
            mem0 == old(s).mem@,
            s.mem@ == spec_store(mem0, addr, val, i as nat),
        decreases w - i,
    {
        let b = (val >> ((8 * i) as u32)) as u8;
        s.mem.insert(addr + i, b);
        proof {
            assert(b == spec_byte(val, i as nat));
            assert(s.mem@ =~= spec_store(mem0, addr, val, (i + 1) as nat));
        }
        i += 1;
    }
}

/// The little-endian value of the `width` bytes from `addr` upward.
fn read_bytes(s: &Shadow, addr: usize, width: u8) -> (v: u32)
    requires
        access_ok(addr, width),
    ensures
        v == spec_read(s.mem(), addr, width as nat),
{
    let w = width as usize;
    let mut v: u32 = 0;
    let mut i: usize = 0;
    while i < w
        invariant
            w == width,
            access_ok(addr, width),
            i <= w,
            v == spec_read(s.mem@, addr, i as nat),
        decreases w - i,
    {
        let b: u8 = match s.mem.get(&(addr + i)) {
            Some(x) => *x,
            None => 0,
        };
        assert(b == spec_byte_at(s.mem@, addr + i));
        v = v | ((b as u32) << ((8 * i) as u32));
        i += 1;
    }
    v
}

/// Record a write of `val` (`width` bytes, little-endian) at `addr`.
pub fn store(s: &mut Shadow, addr: usize, val: u32, width: u8)
    requires
        access_ok(addr, width),
    ensures
        final(s).mem() == spec_store(old(s).mem(), addr, val, width as nat),
        final(s).trace() == old(s).trace().push(Access { write: true, width, addr, val }),
{
    write_bytes(s, addr, val, width);
    s.log.push(Access { write: true, width, addr, val });
}

/// Read `width` bytes (little-endian) at `addr`, and record the read with the
/// value it returned.
pub fn load(s: &mut Shadow, addr: usize, width: u8) -> (v: u32)
    requires
        access_ok(addr, width),
    ensures
        v == spec_read(old(s).mem(), addr, width as nat),
        final(s).mem() == old(s).mem(),
        final(s).trace() == old(s).trace().push(Access { write: false, width, addr, val: v }),
{
    let v = read_bytes(s, addr, width);
    s.log.push(Access { write: false, width, addr, val: v });
    v
}

/// Forget every byte and every logged access.
pub fn reset(s: &mut Shadow)
    ensures
        final(s).mem() == Map::<usize, u8>::empty(),
        final(s).trace() == Seq::<Access>::empty(),
{
    s.mem.clear();
    s.log.clear();
}

/// The full ordered access log (reads and writes).
pub fn log(s: &Shadow) -> (l: Vec<Access>)
    ensures
        l@ == s.trace(),
{
    let mut l: Vec<Access> = Vec::new();
    let mut i: usize = 0;
    while i < s.log.len()
        invariant
            i <= s.log@.len(),
            l@ == s.log@.subrange(0, i as int),
        decreases s.log@.len() - i,
    {
        l.push(s.log[i]);
        assert(l@ =~= s.log@.subrange(0, (i + 1) as int));
        i += 1;
    }
    assert(l@ =~= s.log@);
    l
}

/// Preload a register value so a later read sees it; nothing is logged.
pub fn poke(s: &mut Shadow, addr: usize, val: u32, width: u8)
    requires
        access_ok(addr, width),
    ensures
        final(s).mem() == spec_store(old(s).mem(), addr, val, width as nat),
        final(s).trace() == old(s).trace(),
{
    write_bytes(s, addr, val, width);
}

/// The current value of a register; nothing is logged.
pub fn peek(s: &Shadow, addr: usize, width: u8) -> (v: u32)
    requires
        access_ok(addr, width),
    ensures
        v == spec_read(s.mem(), addr, width as nat),
{
    read_bytes(s, addr, width)
}

/// Reading back what was just written, at the same address and width, gives
/// the written value cut to that width.
pub proof fn lemma_read_after_store(mem: Map<usize, u8>, addr: usize, val: u32, width: u8)
    requires
        access_ok(addr, width),
    ensures
        spec_read(spec_store(mem, addr, val, width as nat), addr, width as nat)
            == spec_truncate(val, width as nat),
{
    let m = spec_store(mem, addr, val, width as nat);
    reveal_with_fuel(spec_read, 5);
    let b0 = spec_byte(val, 0);
    let b1 = spec_byte(val, 1);
    let b2 = spec_byte(val, 2);
    let b3 = spec_byte(val, 3);
    if width >= 1 {
        assert(spec_byte_at(m, addr + 0) == b0);
    }
    if width >= 2 {
        assert(spec_byte_at(m, addr + 1) == b1);
    }
    if width >= 3 {
        assert(spec_byte_at(m, addr + 2) == b2);
    }
    if width >= 4 {
        assert(spec_byte_at(m, addr + 3) == b3);
    }
    assert((0u32 | ((val >> 0u32) as u8 as u32) << 0u32) == val & 0xff) by (bit_vector);
    assert(((0u32 | ((val >> 0u32) as u8 as u32) << 0u32) | ((val >> 8u32) as u8 as u32) << 8u32)
        == val & 0xffff) by (bit_vector);
    assert((((0u32 | ((val >> 0u32) as u8 as u32) << 0u32) | ((val >> 8u32) as u8 as u32) << 8u32)
        | ((val >> 16u32) as u8 as u32) << 16u32) == val & 0xff_ffff) by (bit_vector);
    assert(((((0u32 | ((val >> 0u32) as u8 as u32) << 0u32) | ((val >> 8u32) as u8 as u32) << 8u32)
        | ((val >> 16u32) as u8 as u32) << 16u32) | ((val >> 24u32) as u8 as u32) << 24u32) == val)
        by (bit_vector);
}

/// A read of `width` bytes fits in `width` bytes.
pub proof fn lemma_read_fits(mem: Map<usize, u8>, addr: usize, width: u8)
    requires
        1 <= width <= 2,
    ensures
        width == 1 ==> spec_read(mem, addr, 1) < 0x100,
        width == 2 ==> spec_read(mem, addr, 2) < 0x1_0000,
{
    reveal_with_fuel(spec_read, 3);
    let b0 = spec_byte_at(mem, addr + 0);
    let b1 = spec_byte_at(mem, addr + 1);
    assert((0u32 | (b0 as u32) << 0u32) < 0x100) by (bit_vector);
    assert(((0u32 | (b0 as u32) << 0u32) | (b1 as u32) << 8u32) < 0x1_0000) by (bit_vector);
}

} // verus!
