//! Inspection of a [`Shadow`]: the log, the writes alone, and preloading or
//! reading register values without logging.
pub use crate::mmio::shadow::Access;
use crate::mmio::shadow;
use crate::mmio::shadow::{Shadow, access_ok, spec_read, spec_store};
use vstd::prelude::*;

verus! {

/// The writes of a log, as `(addr, value)` in order.
pub open spec fn spec_writes(log: Seq<Access>) -> Seq<(usize, u32)> {
    log.filter(|a: Access| a.write).map_values(|a: Access| (a.addr, a.val))
}

/// Clear the shadow memory and the access log.
pub fn reset(s: &mut Shadow)
    ensures
        final(s).mem() == Map::<usize, u8>::empty(),
        final(s).trace() == Seq::<Access>::empty(),
{
    shadow::reset(s);
}

/// The full ordered access log (reads and writes).
pub fn log(s: &Shadow) -> (l: Vec<Access>)
    ensures
        l@ == s.trace(),
{
    shadow::log(s)
}

/// Just the writes, as `(addr, value)` in order.
pub fn writes(s: &Shadow) -> (w: Vec<(usize, u32)>)
    ensures
        w@ == spec_writes(s.trace()),
{
    let l = shadow::log(s);
    let mut w: Vec<(usize, u32)> = Vec::new();
    let mut i: usize = 0;
    while i < l.len()
        invariant
            i <= l@.len(),
            w@ == spec_writes(l@.subrange(0, i as int)),
        decreases l@.len() - i,
    {
        let a = l[i];
        proof {
            let pre = l@.subrange(0, i as int);
            assert(l@.subrange(0, (i + 1) as int) =~= pre.push(a));
            pre.lemma_filter_push(a, |a: Access| a.write);
        }
        if a.write {
            w.push((a.addr, a.val));
        }
        proof {
            assert(w@ =~= spec_writes(l@.subrange(0, (i + 1) as int)));
        }
        i += 1;
    }
    assert(l@.subrange(0, l@.len() as int) =~= l@);
    w
}

/// Preload a 32-bit register so a later read returns `val` (not logged).
pub fn poke32(s: &mut Shadow, addr: usize, val: u32)
    requires
        access_ok(addr, 4),
    ensures
        final(s).mem() == spec_store(old(s).mem(), addr, val, 4),
        final(s).trace() == old(s).trace(),
{
    shadow::poke(s, addr, val, 4);
}

/// Preload a 16-bit register (not logged).
pub fn poke16(s: &mut Shadow, addr: usize, val: u16)
    requires
        access_ok(addr, 2),
    ensures
        final(s).mem() == spec_store(old(s).mem(), addr, val as u32, 2),
        final(s).trace() == old(s).trace(),
{
    shadow::poke(s, addr, val as u32, 2);
}

/// Preload an 8-bit register (not logged).
pub fn poke8(s: &mut Shadow, addr: usize, val: u8)
    requires
        access_ok(addr, 1),
    ensures
        final(s).mem() == spec_store(old(s).mem(), addr, val as u32, 1),
        final(s).trace() == old(s).trace(),
{
    shadow::poke(s, addr, val as u32, 1);
}

/// Current value of a 32-bit register (not logged).
pub fn peek32(s: &Shadow, addr: usize) -> (v: u32)
    requires
        access_ok(addr, 4),
    ensures
        v == spec_read(s.mem(), addr, 4),
{
    shadow::peek(s, addr, 4)
}

/// Current value of a 16-bit register (not logged).
pub fn peek16(s: &Shadow, addr: usize) -> (v: u16)
    requires
        access_ok(addr, 2),
    ensures
        v == spec_read(s.mem(), addr, 2),
{
    let v = shadow::peek(s, addr, 2);
    proof {
        shadow::lemma_read_fits(s.mem(), addr, 2);
    }
    v as u16
}

/// Current value of an 8-bit register (not logged).
pub fn peek8(s: &Shadow, addr: usize) -> (v: u8)
    requires
        access_ok(addr, 1),
    ensures
        v == spec_read(s.mem(), addr, 1),
{
    let v = shadow::peek(s, addr, 1);
    proof {
        shadow::lemma_read_fits(s.mem(), addr, 1);
    }
    v as u8
}

} // verus!
