//! Register access through a byte-addressed shadow of the register space.
//!
//! Drivers issue `write32` / `read32` (and the 16- and 8-bit forms) against a
//! [`shadow::Shadow`], which keeps the bytes little-endian and logs every
//! access in order, so a register *sequence* can be checked exactly.
pub mod shadow;
pub mod test;

use crate::mmio::shadow::{Shadow, access_ok, spec_read, spec_store, Access};
use vstd::prelude::*;

verus! {

/// A 32-bit write of `val` to `addr`, as the log records it.
pub open spec fn wr(addr: usize, val: u32) -> Access {
    Access { write: true, width: 4, addr, val }
}

/// A 32-bit read at `addr` that returned `val`, as the log records it.
pub open spec fn rd(addr: usize, val: u32) -> Access {
    Access { write: false, width: 4, addr, val }
}

/// The bytes after the accesses `ops` are made, in order, starting from `mem`
/// (reads leave the bytes as they are).
pub open spec fn spec_replay(mem: Map<usize, u8>, ops: Seq<Access>) -> Map<usize, u8>
    decreases ops.len(),
{
    if ops.len() == 0 {
        mem
    } else {
        let m = spec_replay(mem, ops.drop_last());
        let a = ops.last();
        if a.write { spec_store(m, a.addr, a.val, a.width as nat) } else { m }
    }
}

/// `after` is `before` once exactly the accesses `ops` have been made: they
/// were appended to the log in order, and the bytes changed accordingly.
pub open spec fn performed(before: Shadow, after: Shadow, ops: Seq<Access>) -> bool {
    &&& after.trace() == before.trace() + ops
    &&& after.mem() == spec_replay(before.mem(), ops)
}

/// One 32-bit write, extending a run of accesses that started at `s0`.
pub(crate) fn w32(
    s: &mut Shadow,
    addr: usize,
    val: u32,
    Ghost(s0): Ghost<Shadow>,
    Ghost(done): Ghost<Seq<Access>>,
) -> (r: Ghost<Seq<Access>>)
    requires
        access_ok(addr, 4),
        performed(s0, *old(s), done),
    ensures
        r@ == done.push(wr(addr, val)),
        performed(s0, *final(s), r@),
        final(s).mem() == spec_store(old(s).mem(), addr, val, 4),
{
    shadow::store(s, addr, val, 4);
    let ghost r = done.push(wr(addr, val));
    assert(r.drop_last() =~= done);
    assert(s.trace() =~= s0.trace() + r);
    Ghost(r)
}

/// One 32-bit read, extending a run of accesses that started at `s0`.
pub(crate) fn r32(
    s: &mut Shadow,
    addr: usize,
    Ghost(s0): Ghost<Shadow>,
    Ghost(done): Ghost<Seq<Access>>,
) -> (r: (u32, Ghost<Seq<Access>>))
    requires
        access_ok(addr, 4),
        performed(s0, *old(s), done),
    ensures
        r.0 == spec_read(old(s).mem(), addr, 4),
        r.1@ == done.push(rd(addr, r.0)),
        performed(s0, *final(s), r.1@),
        final(s).mem() == old(s).mem(),
{
    let v = shadow::load(s, addr, 4);
    let ghost r = done.push(rd(addr, v));
    assert(r.drop_last() =~= done);
    assert(s.trace() =~= s0.trace() + r);
    (v, Ghost(r))
}

/// The byte ranges `[a, a + wa)` and `[b, b + wb)` do not meet.
pub open spec fn apart(a: int, wa: int, b: int, wb: int) -> bool {
    a + wa <= b || b + wb <= a
}

/// No write among `ops` touches a byte of `[a, a + w)`.
pub open spec fn untouched(ops: Seq<Access>, a: usize, w: nat) -> bool {
    forall|i: int|
        0 <= i < ops.len() && (#[trigger] ops[i]).write ==> apart(
            ops[i].addr as int,
            ops[i].width as int,
            a as int,
            w as int,
        )
}

/// A store to other bytes does not change what a read of `[a, a + w)` sees.
pub proof fn lemma_store_keeps_others(
    mem: Map<usize, u8>,
    b: usize,
    val: u32,
    wb: nat,
    a: usize,
    w: nat,
)
    requires
        apart(b as int, wb as int, a as int, w as int),
        a + w <= usize::MAX + 1,
    ensures
        spec_read(spec_store(mem, b, val, wb), a, w) == spec_read(mem, a, w),
    decreases w,
{
    if w > 0 {
        lemma_store_keeps_others(mem, b, val, wb, a, (w - 1) as nat);
        let k = (a + w - 1) as usize;
        let m2 = spec_store(mem, b, val, wb);
        assert(!(b <= k < b + wb));
        assert(m2.contains_key(k) == mem.contains_key(k));
        assert(mem.contains_key(k) ==> m2[k] == mem[k]);
    }
}

/// Accesses that write elsewhere do not change what a read of `[a, a + w)`
/// sees.
pub proof fn lemma_replay_keeps_others(mem: Map<usize, u8>, a: usize, w: nat, ops: Seq<Access>)
    requires
        untouched(ops, a, w),
        a + w <= usize::MAX + 1,
    ensures
        spec_read(spec_replay(mem, ops), a, w) == spec_read(mem, a, w),
    decreases ops.len(),
{
    if ops.len() > 0 {
        let rest = ops.drop_last();
        assert forall|i: int| 0 <= i < rest.len() && (#[trigger] rest[i]).write implies apart(
            rest[i].addr as int,
            rest[i].width as int,
            a as int,
            w as int,
        ) by {
            assert(rest[i] == ops[i]);
        }
        lemma_replay_keeps_others(mem, a, w, rest);
        let x = ops.last();
        assert(x == ops[ops.len() - 1]);
        if x.write {
            lemma_store_keeps_others(spec_replay(mem, rest), x.addr, x.val, x.width as nat, a, w);
        }
    }
}

/// Replaying two runs of accesses one after the other is replaying them
/// joined.
pub proof fn lemma_replay_append(mem: Map<usize, u8>, x: Seq<Access>, y: Seq<Access>)
    ensures
        spec_replay(spec_replay(mem, x), y) == spec_replay(mem, x + y),
    decreases y.len(),
{
    if y.len() == 0 {
        assert(x + y =~= x);
    } else {
        lemma_replay_append(mem, x, y.drop_last());
        assert((x + y).drop_last() =~= x + y.drop_last());
        assert((x + y).last() == y.last());
    }
}

/// Two runs of accesses, one after the other, make one run.
pub proof fn lemma_performed_chain(a: Shadow, b: Shadow, c: Shadow, x: Seq<Access>, y: Seq<Access>)
    requires
        performed(a, b, x),
        performed(b, c, y),
    ensures
        performed(a, c, x + y),
{
    lemma_replay_append(a.mem(), x, y);
    assert(a.trace() + x + y =~= a.trace() + (x + y));
}

/// Nothing has been done yet.
pub proof fn lemma_performed_nothing(s: Shadow)
    ensures
        performed(s, s, Seq::empty()),
{
    assert(s.trace() + Seq::<Access>::empty() =~= s.trace());
}

/// Write a 32-bit register.
pub fn write32(s: &mut Shadow, addr: usize, val: u32)
    requires
        access_ok(addr, 4),
    ensures
        final(s).mem() == spec_store(old(s).mem(), addr, val, 4),
        final(s).trace() == old(s).trace().push(Access { write: true, width: 4, addr, val }),
{
    shadow::store(s, addr, val, 4);
}

/// Read a 32-bit register.
pub fn read32(s: &mut Shadow, addr: usize) -> (v: u32)
    requires
        access_ok(addr, 4),
    ensures
        v == spec_read(old(s).mem(), addr, 4),
        final(s).mem() == old(s).mem(),
        final(s).trace() == old(s).trace().push(Access { write: false, width: 4, addr, val: v }),
{
    shadow::load(s, addr, 4)
}

/// Write a 16-bit register.
pub fn write16(s: &mut Shadow, addr: usize, val: u16)
    requires
        access_ok(addr, 2),
    ensures
        final(s).mem() == spec_store(old(s).mem(), addr, val as u32, 2),
        final(s).trace() == old(s).trace().push(
            Access { write: true, width: 2, addr, val: val as u32 },
        ),
{
    shadow::store(s, addr, val as u32, 2);
}

/// Read a 16-bit register.
pub fn read16(s: &mut Shadow, addr: usize) -> (v: u16)
    requires
        access_ok(addr, 2),
    ensures
        v == spec_read(old(s).mem(), addr, 2),
        final(s).mem() == old(s).mem(),
        final(s).trace() == old(s).trace().push(
            Access { write: false, width: 2, addr, val: v as u32 },
        ),
{
    let v = shadow::load(s, addr, 2);
    proof {
        shadow::lemma_read_fits(old(s).mem(), addr, 2);
    }
    v as u16
}

/// Write an 8-bit register.
pub fn write8(s: &mut Shadow, addr: usize, val: u8)
    requires
        access_ok(addr, 1),
    ensures
        final(s).mem() == spec_store(old(s).mem(), addr, val as u32, 1),
        final(s).trace() == old(s).trace().push(
            Access { write: true, width: 1, addr, val: val as u32 },
        ),
{
    shadow::store(s, addr, val as u32, 1);
}

/// Read an 8-bit register.
pub fn read8(s: &mut Shadow, addr: usize) -> (v: u8)
    requires
        access_ok(addr, 1),
    ensures
        v == spec_read(old(s).mem(), addr, 1),
        final(s).mem() == old(s).mem(),
        final(s).trace() == old(s).trace().push(
            Access { write: false, width: 1, addr, val: v as u32 },
        ),
{
    let v = shadow::load(s, addr, 1);
    proof {
        shadow::lemma_read_fits(old(s).mem(), addr, 1);
    }
    v as u8
}

/// After a run of accesses, a word reads back the value of the last write to
/// it, when nothing after that write touches it.
pub proof fn lemma_read_last_write(mem: Map<usize, u8>, pre: Seq<Access>, a: usize, v: u32, post: Seq<Access>)
    requires
        a + 4 <= usize::MAX + 1,
        untouched(post, a, 4),
    ensures
        spec_read(spec_replay(mem, pre.push(wr(a, v)) + post), a, 4) == v,
{
    lemma_replay_append(mem, pre.push(wr(a, v)), post);
    lemma_replay_keeps_others(spec_replay(mem, pre.push(wr(a, v))), a, 4, post);
    assert(pre.push(wr(a, v)).drop_last() =~= pre);
    crate::mmio::shadow::lemma_read_after_store(spec_replay(mem, pre), a, v, 4);
}

} // verus!
