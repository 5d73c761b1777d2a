//! USB mass-storage class (Bulk-Only Transport): the two class-specific
//! control requests, Get Max LUN and Bulk-Only Mass Storage Reset.
use vstd::prelude::*;

verus! {

/// Interface class: mass storage.
pub const USB_CLASS_MSC: u8 = 0x08;
/// Subclass: SCSI transparent command set.
pub const MSC_SUBCLASS_SCSI: u8 = 0x06;
/// Protocol: Bulk-Only Transport.
pub const MSC_PROTOCOL_BBB: u8 = 0x50;
/// Class request: Bulk-Only Mass Storage Reset (host to device).
pub const MSC_REQ_RESET: u8 = 0xFF;
/// Class request: Get Max LUN (device to host).
pub const MSC_REQ_GET_MAX_LUN: u8 = 0xFE;
/// The highest logical unit number: one LUN.
pub const MAX_LUN: u8 = 0;

/// What the class handler reads of a control request.
#[derive(Clone, Copy, Debug, PartialEq, Eq, Structural)]
pub struct ControlRequest {
    /// The request type is "class".
    pub class: bool,
    /// The recipient is an interface.
    pub to_interface: bool,
    /// wIndex.
    pub index: u16,
    /// bRequest.
    pub request: u8,
}

/// The request is a class request to interface `iface` (the low byte of
/// wIndex).
pub open spec fn spec_targets_iface(iface: u8, req: ControlRequest) -> bool {
    req.class && req.to_interface && (req.index as u8) == iface
}

/// Whether `req` is a class request addressed to interface `iface`.
pub fn targets_iface(iface: u8, req: &ControlRequest) -> (t: bool)
    ensures
        t == spec_targets_iface(iface, *req),
{
    req.class && req.to_interface && (req.index as u8) == iface
}

/// `req` is a Bulk-Only Reset addressed to interface `iface`.
pub open spec fn spec_is_reset(iface: u8, req: ControlRequest) -> bool {
    spec_targets_iface(iface, req) && req.request == MSC_REQ_RESET
}

/// The pending-reset flag after it stood at `p` and the host-to-device
/// requests `reqs` arrived, in order, with no bus reset between them.
pub open spec fn spec_pending_after(iface: u8, p: bool, reqs: Seq<ControlRequest>) -> bool
    decreases reqs.len(),
{
    if reqs.len() == 0 {
        p
    } else {
        spec_pending_after(iface, p, reqs.drop_last()) || spec_is_reset(iface, reqs.last())
    }
}

/// Over any sequence of host-to-device requests after a [`take_reset`] (and
/// with no bus reset among them), the next [`take_reset`] reports `true`
/// exactly when at least one of them was an accepted Bulk-Only Reset, however
/// many there were.
pub proof fn lemma_take_reset_reports_any_reset(iface: u8, reqs: Seq<ControlRequest>)
    ensures
        spec_pending_after(iface, false, reqs) == exists|k: int|
            0 <= k < reqs.len() && spec_is_reset(iface, #[trigger] reqs[k]),
    decreases reqs.len(),
{
    if reqs.len() > 0 {
        let prev = reqs.drop_last();
        lemma_take_reset_reports_any_reset(iface, prev);
        if spec_pending_after(iface, false, prev) {
            let k = choose|k: int| 0 <= k < prev.len() && spec_is_reset(iface, #[trigger] prev[k]);
            assert(reqs[k] == prev[k]);
        }
        if spec_is_reset(iface, reqs.last()) {
            assert(reqs[reqs.len() - 1] == reqs.last());
        }
        if exists|k: int| 0 <= k < reqs.len() && spec_is_reset(iface, #[trigger] reqs[k]) {
            let k = choose|k: int| 0 <= k < reqs.len() && spec_is_reset(iface, #[trigger] reqs[k]);
            if k < reqs.len() - 1 {
                assert(prev[k] == reqs[k]);
            }
        }
    }
}

/// A host-to-device request: a Bulk-Only Reset to our interface is accepted
/// and leaves a reset pending for the transport loop (`true`); anything else
/// is not ours (`false`, nothing changes).
pub fn control_out(iface: u8, req: &ControlRequest, reset_pending: &mut bool) -> (accepted: bool)
    ensures
        accepted == (spec_targets_iface(iface, *req) && req.request == MSC_REQ_RESET),
        *final(reset_pending) == (accepted || *old(reset_pending)),
        *final(reset_pending) == spec_pending_after(iface, *old(reset_pending), seq![*req]),
{
    assert(seq![*req].drop_last() =~= Seq::<ControlRequest>::empty());
    assert(seq![*req].last() == *req);
    assert(spec_pending_after(iface, *reset_pending, Seq::<ControlRequest>::empty()) == *reset_pending);
    assert(spec_pending_after(iface, *reset_pending, seq![*req]) == (*reset_pending
        || spec_is_reset(iface, *req)));
    if targets_iface(iface, req) && req.request == MSC_REQ_RESET {
        *reset_pending = true;
        return true;
    }
    false
}

/// A device-to-host request with a `buf_len`-byte buffer: Get Max LUN to our
/// interface, with room for the answer, is answered with one byte,
/// [`MAX_LUN`]; anything else is not ours.
pub fn control_in(iface: u8, req: &ControlRequest, buf_len: usize) -> (reply: Option<u8>)
    ensures
        reply == if spec_targets_iface(iface, *req) && req.request == MSC_REQ_GET_MAX_LUN
            && buf_len > 0 {
            Some(MAX_LUN)
        } else {
            None
        },
{
    if targets_iface(iface, req) && req.request == MSC_REQ_GET_MAX_LUN && buf_len > 0 {
        return Some(MAX_LUN);
    }
    None
}

/// A USB bus reset drops a pending Bulk-Only Reset.
pub fn bus_reset(reset_pending: &mut bool)
    ensures
        !*final(reset_pending),
{
    *reset_pending = false;
}

/// Whether a Bulk-Only Reset was requested since the last call; the request
/// is consumed.
pub fn take_reset(reset_pending: &mut bool) -> (was: bool)
    ensures
        was == *old(reset_pending),
        !*final(reset_pending),
{
    let was = *reset_pending;
    *reset_pending = false;
    was
}

} // verus!
