//! Sample-rate conversion unit (SCUX): configuration types and the register
//! sequences that set up, start and stop its audio paths.
//!
//! ```text
//!                                                  +--> FFU0-3 --> CPU/DMA
//! CPU/DMA --> FFD0-3 --> IPC0-3 --> 2SRC0-3 --> OPC0-3
//!                                                  +--> DVU0-3 --> MIX --> SSIF
//! ```
//!
//! Every block holds its INIT bit set after a reset; the block is configured
//! while INIT is set and started by clearing it, in the order FFD, FFU, 2SRC,
//! DVU, MIX, IPC, OPC (OPC last). Stopping goes the other way round.
pub mod regs;
pub mod laws;

pub use crate::scux::regs::intifs;
use crate::scux::regs::{
    ipc, opc, ffd, ffu, src, srcirr, dvu, vol_off, mix, cim, ipc_at, opc_at, ffd_at, ffu_at,
    src_at, srcirr_at, dvu_at, mix_at, cim_at, IPSLR_OFF, OPSLR_OFF, FDAIR_OFF, DRQSR_OFF,
    DEVMR_OFF, FFDPR_OFF, FUAIR_OFF, URQSR_OFF, UEVMR_OFF, FFUPR_OFF, SADIR_OFF, SRCCR_OFF,
    SRCBR_OFF, IFSCR_OFF, IFSVR_OFF, MNFSR_OFF, BFSSR_OFF, SRCCR_MBZ1, SRCCR_SYNC, SRCBR_BYPASS,
    IFSCR_INTIFSEN, SWRSR_CIM_OFF, SWRSR_RESET, SWRSR_RUN, VADIR_OFF, DVUBR_OFF, DVUBR_BYPASS,
    ZCMCR_OFF, ZCMCR_ZCEN, VOL0R_OFF, DVUCR_OFF, DVUCR_VRMD, DVUCR_VVMD, VRCTR_OFF, VRCTR_VREN,
    VRPDR_OFF, VRDBR_OFF, VRWTR_OFF, DVUER_OFF, DVUER_DVUEN, MADIR_OFF, MIXBR_OFF, MIXBR_BYPASS,
    MDB0R_OFF, MDB1R_OFF, MDB2R_OFF, MDB3R_OFF, MDBER_OFF, MDBER_MIXDBEN, FDTSEL0_CIM_OFF,
    FDTSEL1_CIM_OFF, FDTSEL2_CIM_OFF, FDTSEL3_CIM_OFF, FUTSEL0_CIM_OFF, FUTSEL1_CIM_OFF,
    FUTSEL2_CIM_OFF, FUTSEL3_CIM_OFF, SSIRSEL_CIM_OFF, SSIPMD_CIM_OFF, SSICTRL_CIM_OFF,
    FFDPR_PASS_ASYNC, FFUPR_PASS_ASYNC, DMACR_CIM_OFF, MIXIR_OFF, FFDIR_OFF, FFUIR_OFF,
    SRCIR_OFF, DVUIR_OFF, IPCIR_OFF, OPCIR_OFF, SRCRSEL0_CIM_OFF, SRCRSEL1_CIM_OFF,
    SRCRSEL2_CIM_OFF, SRCRSEL3_CIM_OFF, MIXRSEL_CIM_OFF, DMATD0_CIM_OFF, DMATD1_CIM_OFF,
    DMATD2_CIM_OFF, DMATD3_CIM_OFF, DMATU0_CIM_OFF, DMATU1_CIM_OFF, DMATU2_CIM_OFF,
    DMATU3_CIM_OFF, FFDBR_OFF, FFDBR_BOOT, INIT_SET, INIT_CLR, DESC_HEADER, CIM_BASE,
    DMARS_SCUTXI0, DMARS_SCUTXI1, DMARS_SCUTXI2, DMARS_SCUTXI3, DMARS_SCURXI0, DMARS_SCURXI1,
    DMARS_SCURXI2, DMARS_SCURXI3, spec_ffd_chcfg, spec_ffu_chcfg, ffd_chcfg, ffu_chcfg, IPC_BASE,
    SRC_BASE, IPC_STRIDE, OPC_BASE, OPC_STRIDE, FFD_BASE, FFD_STRIDE, FFU_BASE, FFU_STRIDE, DVU_BASE,
    DVU_STRIDE,
};
use crate::dmac;
use crate::mmio::shadow::{Shadow, Access, spec_read};
use crate::mmio::{apart, performed, untouched, wr, rd, w32, r32};
use vstd::prelude::*;

verus! {

/// Bit depth of audio samples.
#[derive(Clone, Copy, Debug, PartialEq, Eq, Structural)]
pub enum BitDepth {
    /// 24-bit samples.
    B24,
    /// 16-bit samples.
    B16,
}

impl BitDepth {
    /// The OTBL field value (bits 20:16 of SADIR / VADIR).
    pub open spec fn spec_otbl(self) -> u32 {
        match self {
            BitDepth::B24 => 0,
            BitDepth::B16 => 8,
        }
    }

    /// The OTBL field value (bits 20:16 of SADIR / VADIR).
    pub fn otbl(self) -> (v: u32)
        ensures
            v == self.spec_otbl(),
    {
        match self {
            BitDepth::B24 => 0,
            BitDepth::B16 => 8,
        }
    }
}

/// Channel count and bit depth, as written into FDAIR / FUAIR / SADIR /
/// VADIR / MADIR.
#[derive(Clone, Copy, Debug)]
pub struct AudioInfo {
    /// Number of audio channels (1–8).
    pub channels: u8,
    /// Sample bit depth.
    pub depth: BitDepth,
}

impl AudioInfo {
    /// Stereo 24-bit audio, the most common configuration.
    pub fn stereo_24() -> (a: AudioInfo)
        ensures
            a.channels == 2,
            a.depth == BitDepth::B24,
    {
        AudioInfo { channels: 2, depth: BitDepth::B24 }
    }

    /// The register encoding: `channels | (otbl << 16)`.
    pub open spec fn spec_to_reg(self) -> u32 {
        (self.depth.spec_otbl() << 16) | (self.channels as u32)
    }

    /// The register encoding: `channels | (otbl << 16)`.
    pub fn to_reg(self) -> (v: u32)
        ensures
            v == self.spec_to_reg(),
    {
        (self.depth.otbl() << 16) | (self.channels as u32)
    }
}

/// 2SRC operating mode.
#[derive(Clone, Copy, Debug, PartialEq, Eq, Structural)]
pub enum SrcMode {
    /// Asynchronous: input and output clocks are independent.
    Async,
    /// Synchronous: the SSI clock is the reference.
    Sync,
}

/// Configuration of one 2SRC path.
#[derive(Clone, Copy, Debug)]
pub struct SrcConfig {
    pub mode: SrcMode,
    /// Audio format fed into the converter.
    pub audio: AudioInfo,
    /// Pass audio through unchanged; `mode`, `intifs`, `mnfsr` and
    /// `buf_size` are then ignored.
    pub bypass: bool,
    /// Interpolation ratio (see [`intifs`]).
    pub intifs: u32,
    /// Minimum frequency register value (0 disables the check).
    pub mnfsr: u32,
    /// Buffer size select (bits 1:0).
    pub buf_size: u32,
}

/// Hardware volume-ramp settings of a DVU.
#[derive(Clone, Copy, Debug)]
pub struct RampConfig {
    /// Ramp period (VRPDR).
    pub vrpdr: u32,
    /// Ramp step (VRDBR).
    pub vrdbr: u32,
}

/// Configuration of one DVU instance.
#[derive(Clone, Copy, Debug)]
pub struct DvuConfig {
    pub audio: AudioInfo,
    /// Pass audio through unchanged; `volumes` and `ramp` are then ignored.
    pub bypass: bool,
    /// Per-channel volume, 4.20 fixed point (0x0010_0000 = unity).
    pub volumes: [u32; 8],
    /// Volume ramp; `None` changes volume at once.
    pub ramp: Option<RampConfig>,
    /// Zero-cross mute suppression.
    pub zero_cross_mute: bool,
}

impl DvuConfig {
    /// The bypass configuration: stereo 24-bit, unity volumes, no ramp.
    pub fn bypassed() -> (c: DvuConfig)
        ensures
            c.bypass,
            c.audio.channels == 2,
            c.audio.depth == BitDepth::B24,
            c.ramp is None,
            !c.zero_cross_mute,
            forall|i: int| 0 <= i < 8 ==> c.volumes[i] == 0x0010_0000,
    {
        DvuConfig {
            audio: AudioInfo::stereo_24(),
            bypass: true,
            volumes: [0x0010_0000u32; 8],
            ramp: None,
            zero_cross_mute: false,
        }
    }
}

/// IPC input path selection (IPSLR).
#[derive(Clone, Copy, Debug, PartialEq, Eq, Structural)]
pub enum IpcSel {
    /// Input path disabled.
    Disabled,
    /// SSI -> 2SRC (async).
    SsiToSrcAsync,
    /// FFD -> 2SRC (async).
    FfdToSrcAsync,
    /// FFD -> 2SRC (sync).
    FfdToSrcSync,
}

impl IpcSel {
    /// The IPSLR encoding.
    pub open spec fn spec_value(self) -> u32 {
        match self {
            IpcSel::Disabled => 0b000,
            IpcSel::SsiToSrcAsync => 0b001,
            IpcSel::FfdToSrcAsync => 0b011,
            IpcSel::FfdToSrcSync => 0b100,
        }
    }

    /// The IPSLR encoding.
    pub fn value(self) -> (v: u32)
        ensures
            v == self.spec_value(),
    {
        match self {
            IpcSel::Disabled => 0b000,
            IpcSel::SsiToSrcAsync => 0b001,
            IpcSel::FfdToSrcAsync => 0b011,
            IpcSel::FfdToSrcSync => 0b100,
        }
    }
}

/// OPC output path selection (OPSLR).
#[derive(Clone, Copy, Debug, PartialEq, Eq, Structural)]
pub enum OpcSel {
    /// Output path disabled.
    Disabled,
    /// Async path -> SSIF (with or without DVU / MIX).
    ToSsi,
    /// Async path -> FFU.
    ToFfu,
}

impl OpcSel {
    /// The OPSLR encoding.
    pub open spec fn spec_value(self) -> u32 {
        match self {
            OpcSel::Disabled => 0b000,
            OpcSel::ToSsi => 0b001,
            OpcSel::ToFfu => 0b011,
        }
    }

    /// The OPSLR encoding.
    pub fn value(self) -> (v: u32)
        ensures
            v == self.spec_value(),
    {
        match self {
            OpcSel::Disabled => 0b000,
            OpcSel::ToSsi => 0b001,
            OpcSel::ToFfu => 0b011,
        }
    }
}

/// MIX configuration.
#[derive(Clone, Copy, Debug)]
pub struct MixConfig {
    pub audio: AudioInfo,
    /// Only the first source passes through.
    pub bypass: bool,
}

/// One write of `val` to `addr`, starting a run of accesses.
fn write_one(s: &mut Shadow, addr: usize, val: u32)
    requires
        addr <= 0xFFFF_0000,
    ensures
        performed(*old(s), *final(s), seq![wr(addr, val)]),
{
    let ghost s0 = *s;
    proof {
        crate::mmio::lemma_performed_nothing(s0);
    }
    let Ghost(d) = w32(s, addr, val, Ghost(s0), Ghost(Seq::empty()));
    assert(d =~= seq![wr(addr, val)]);
}

/// The accesses of [`reset`].
pub open spec fn spec_reset_ops() -> Seq<Access> {
    let a = cim_at(SWRSR_CIM_OFF);
    seq![wr(a, SWRSR_RESET), rd(a, SWRSR_RESET), wr(a, SWRSR_RUN), rd(a, SWRSR_RUN)]
}

/// Assert and release the SCUX software reset (SWRSR = 0, then 1), each
/// write followed by the mandatory dummy read. Afterwards every block holds
/// its INIT bit set.
pub fn reset(s: &mut Shadow)
    ensures
        performed(*old(s), *final(s), spec_reset_ops()),
{
    let ghost s0 = *s;
    proof {
        crate::mmio::lemma_performed_nothing(s0);
    }
    let a = cim(SWRSR_CIM_OFF);
    let Ghost(d1) = w32(s, a, SWRSR_RESET, Ghost(s0), Ghost(Seq::empty()));
    proof {
        assert(d1.drop_last() =~= Seq::<Access>::empty());
        crate::mmio::shadow::lemma_read_after_store(
            crate::mmio::spec_replay(s0.mem(), Seq::empty()),
            a,
            SWRSR_RESET,
            4,
        );
    }
    let (v1, Ghost(d2)) = r32(s, a, Ghost(s0), Ghost(d1));
    assert(v1 == SWRSR_RESET);
    let Ghost(d3) = w32(s, a, SWRSR_RUN, Ghost(s0), Ghost(d2));
    proof {
        crate::mmio::shadow::lemma_read_after_store(
            crate::mmio::spec_replay(s0.mem(), d2),
            a,
            SWRSR_RUN,
            4,
        );
        assert(d3.drop_last() =~= d2);
    }
    let (v2, Ghost(d4)) = r32(s, a, Ghost(s0), Ghost(d3));
    assert(v2 == SWRSR_RUN);
    assert(d4 =~= spec_reset_ops());
}

/// Select IPC channel `ch`'s input path (IPSLR).
pub fn configure_ipc(s: &mut Shadow, ch: u8, sel: IpcSel)
    ensures
        performed(*old(s), *final(s), seq![wr(ipc_at(ch as int, IPSLR_OFF), sel.spec_value())]),
{
    write_one(s, ipc(ch, IPSLR_OFF), sel.value());
}

/// Select OPC channel `ch`'s output path (OPSLR).
pub fn configure_opc(s: &mut Shadow, ch: u8, sel: OpcSel)
    ensures
        performed(*old(s), *final(s), seq![wr(opc_at(ch as int, OPSLR_OFF), sel.spec_value())]),
{
    write_one(s, opc(ch, OPSLR_OFF), sel.value());
}

/// The accesses of [`configure_ffd`].
pub open spec fn spec_configure_ffd_ops(ch: u8, audio: AudioInfo, dma_size: u8) -> Seq<Access> {
    seq![
        wr(ffd_at(ch as int, FDAIR_OFF), audio.spec_to_reg()),
        wr(ffd_at(ch as int, DRQSR_OFF), dma_size as u32),
        wr(ffd_at(ch as int, DEVMR_OFF), 0),
        wr(ffd_at(ch as int, FFDPR_OFF), FFDPR_PASS_ASYNC),
    ]
}

/// Configure FFD channel `ch` (while its INIT is set): audio format, DMA
/// request size, DMA event mode, and the async data path CIM -> FFD -> IPC.
pub fn configure_ffd(s: &mut Shadow, ch: u8, audio: AudioInfo, dma_size: u8)
    ensures
        performed(*old(s), *final(s), spec_configure_ffd_ops(ch, audio, dma_size)),
{
    let ghost s0 = *s;
    proof {
        crate::mmio::lemma_performed_nothing(s0);
    }
    let Ghost(d1) = w32(s, ffd(ch, FDAIR_OFF), audio.to_reg(), Ghost(s0), Ghost(Seq::empty()));
    let Ghost(d2) = w32(s, ffd(ch, DRQSR_OFF), dma_size as u32, Ghost(s0), Ghost(d1));
    let Ghost(d3) = w32(s, ffd(ch, DEVMR_OFF), 0, Ghost(s0), Ghost(d2));
    let Ghost(d4) = w32(s, ffd(ch, FFDPR_OFF), FFDPR_PASS_ASYNC, Ghost(s0), Ghost(d3));
    assert(d4 =~= spec_configure_ffd_ops(ch, audio, dma_size));
}

/// The accesses of [`configure_ffu`].
pub open spec fn spec_configure_ffu_ops(ch: u8, audio: AudioInfo, dma_size: u8) -> Seq<Access> {
    seq![
        wr(ffu_at(ch as int, FUAIR_OFF), audio.spec_to_reg()),
        wr(ffu_at(ch as int, URQSR_OFF), dma_size as u32),
        wr(ffu_at(ch as int, UEVMR_OFF), 0),
        wr(ffu_at(ch as int, FFUPR_OFF), FFUPR_PASS_ASYNC),
    ]
}

/// Configure FFU channel `ch` (while its INIT is set): audio format, DMA
/// request size, DMA event mode, and the async data path OPC -> FFU -> CIM.
pub fn configure_ffu(s: &mut Shadow, ch: u8, audio: AudioInfo, dma_size: u8)
    ensures
        performed(*old(s), *final(s), spec_configure_ffu_ops(ch, audio, dma_size)),
{
    let ghost s0 = *s;
    proof {
        crate::mmio::lemma_performed_nothing(s0);
    }
    let Ghost(d1) = w32(s, ffu(ch, FUAIR_OFF), audio.to_reg(), Ghost(s0), Ghost(Seq::empty()));
    let Ghost(d2) = w32(s, ffu(ch, URQSR_OFF), dma_size as u32, Ghost(s0), Ghost(d1));
    let Ghost(d3) = w32(s, ffu(ch, UEVMR_OFF), 0, Ghost(s0), Ghost(d2));
    let Ghost(d4) = w32(s, ffu(ch, FFUPR_OFF), FFUPR_PASS_ASYNC, Ghost(s0), Ghost(d3));
    assert(d4 =~= spec_configure_ffu_ops(ch, audio, dma_size));
}

/// The accesses of [`configure_src`].
pub open spec fn spec_configure_src_ops(unit: u8, pair: u8, cfg: SrcConfig) -> Seq<Access> {
    let at = |off: usize| src_at(unit as int, pair as int, off);
    if cfg.bypass {
        seq![
            wr(at(SADIR_OFF), cfg.audio.spec_to_reg()),
            wr(at(SRCCR_OFF), SRCCR_MBZ1),
            wr(at(SRCBR_OFF), SRCBR_BYPASS),
        ]
    } else {
        seq![
            wr(at(SADIR_OFF), cfg.audio.spec_to_reg()),
            wr(at(SRCCR_OFF), SRCCR_MBZ1),
            wr(at(SRCBR_OFF), 0),
            wr(at(IFSCR_OFF), if cfg.mode == SrcMode::Async { IFSCR_INTIFSEN } else { 0 }),
            wr(at(IFSVR_OFF), cfg.intifs),
            wr(
                at(SRCCR_OFF),
                if cfg.mode == SrcMode::Sync { SRCCR_MBZ1 | SRCCR_SYNC } else { SRCCR_MBZ1 | 0 },
            ),
            wr(at(MNFSR_OFF), cfg.mnfsr),
            wr(at(BFSSR_OFF), cfg.buf_size & 0b11),
        ]
    }
}

/// Configure 2SRC path (`unit`, `pair`) while its INIT is set. The SRCCR
/// must-be-1 bits are always written first; a bypassed path then only sets
/// SRCBR. An active path clears SRCBR and sets the mode (IFSCR, SRCCR), the
/// ratio, the minimum frequency and the buffer size.
pub fn configure_src(s: &mut Shadow, unit: u8, pair: u8, cfg: SrcConfig)
    ensures
        performed(*old(s), *final(s), spec_configure_src_ops(unit, pair, cfg)),
{
    let ghost s0 = *s;
    proof {
        crate::mmio::lemma_performed_nothing(s0);
    }
    let Ghost(d1) = w32(
        s,
        src(unit, pair, SADIR_OFF),
        cfg.audio.to_reg(),
        Ghost(s0),
        Ghost(Seq::empty()),
    );
    let Ghost(d2) = w32(s, src(unit, pair, SRCCR_OFF), SRCCR_MBZ1, Ghost(s0), Ghost(d1));
    if cfg.bypass {
        let Ghost(d3) = w32(s, src(unit, pair, SRCBR_OFF), SRCBR_BYPASS, Ghost(s0), Ghost(d2));
        assert(d3 =~= spec_configure_src_ops(unit, pair, cfg));
        return ;
    }
    let Ghost(d3) = w32(s, src(unit, pair, SRCBR_OFF), 0, Ghost(s0), Ghost(d2));
    let ifscr_val: u32 = match cfg.mode {
        SrcMode::Async => IFSCR_INTIFSEN,
        SrcMode::Sync => 0,
    };
    let Ghost(d4) = w32(s, src(unit, pair, IFSCR_OFF), ifscr_val, Ghost(s0), Ghost(d3));
    let Ghost(d5) = w32(s, src(unit, pair, IFSVR_OFF), cfg.intifs, Ghost(s0), Ghost(d4));
    let srccr_val = SRCCR_MBZ1 | match cfg.mode {
        SrcMode::Sync => SRCCR_SYNC,
        SrcMode::Async => 0,
    };
    let Ghost(d6) = w32(s, src(unit, pair, SRCCR_OFF), srccr_val, Ghost(s0), Ghost(d5));
    let Ghost(d7) = w32(s, src(unit, pair, MNFSR_OFF), cfg.mnfsr, Ghost(s0), Ghost(d6));
    let Ghost(d8) = w32(s, src(unit, pair, BFSSR_OFF), cfg.buf_size & 0b11, Ghost(s0), Ghost(d7));
    assert(d8 =~= spec_configure_src_ops(unit, pair, cfg));
}

/// The accesses of [`src_update_intifs`].
pub open spec fn spec_src_update_intifs_ops(unit: u8, pair: u8, v: u32) -> Seq<Access> {
    seq![
        wr(src_at(unit as int, pair as int, IFSVR_OFF), v),
        wr(srcirr_at(unit as int), 1),
        wr(srcirr_at(unit as int), 0),
    ]
}

/// Change the ratio of a running 2SRC path: write IFSVR, then pulse the
/// unit's SRCIRR INIT bit so the new ratio is reloaded.
pub fn src_update_intifs(s: &mut Shadow, unit: u8, pair: u8, new_intifs: u32)
    ensures
        performed(*old(s), *final(s), spec_src_update_intifs_ops(unit, pair, new_intifs)),
{
    let ghost s0 = *s;
    proof {
        crate::mmio::lemma_performed_nothing(s0);
    }
    let Ghost(d1) = w32(s, src(unit, pair, IFSVR_OFF), new_intifs, Ghost(s0), Ghost(Seq::empty()));
    let Ghost(d2) = w32(s, srcirr(unit), 1, Ghost(s0), Ghost(d1));
    let Ghost(d3) = w32(s, srcirr(unit), 0, Ghost(s0), Ghost(d2));
    assert(d3 =~= spec_src_update_intifs_ops(unit, pair, new_intifs));
}

/// The accesses of [`configure_dvu`].
pub open spec fn spec_configure_dvu_ops(ch: u8, cfg: DvuConfig) -> Seq<Access> {
    seq![
        wr(dvu_at(ch as int, VADIR_OFF), cfg.audio.spec_to_reg()),
        wr(dvu_at(ch as int, DVUBR_OFF), if cfg.bypass { DVUBR_BYPASS } else { 0 }),
    ]
}

/// First phase of DVU setup, while its INIT is set: the audio format and
/// the bypass bit, the only DVU registers that accept writes then.
pub fn configure_dvu(s: &mut Shadow, ch: u8, cfg: DvuConfig)
    ensures
        performed(*old(s), *final(s), spec_configure_dvu_ops(ch, cfg)),
{
    let ghost s0 = *s;
    proof {
        crate::mmio::lemma_performed_nothing(s0);
    }
    let Ghost(d1) = w32(s, dvu(ch, VADIR_OFF), cfg.audio.to_reg(), Ghost(s0), Ghost(Seq::empty()));
    let b = if cfg.bypass { DVUBR_BYPASS } else { 0 };
    let Ghost(d2) = w32(s, dvu(ch, DVUBR_OFF), b, Ghost(s0), Ghost(d1));
    assert(d2 =~= spec_configure_dvu_ops(ch, cfg));
}

/// The low `n` bits set: the mask of the first `n` audio channels.
pub open spec fn spec_low_bits(n: u8) -> u32 {
    ((1u32 << n as u32) - 1) as u32
}

fn low_bits(n: u8) -> (m: u32)
    requires
        n <= 8,
    ensures
        m == spec_low_bits(n),
{
    let one_shl = 1u32 << n as u32;
    assert(1u32 << n as u32 >= 1) by (bit_vector)
        requires
            n <= 8,
    ;
    one_shl - 1
}

/// Writes of `volumes[0..n]` to DVU channel `ch`'s VOL0R.. registers.
pub open spec fn spec_vol_ops(ch: u8, volumes: [u32; 8], n: int) -> Seq<Access>
    decreases n,
{
    if n <= 0 {
        Seq::empty()
    } else {
        spec_vol_ops(ch, volumes, n - 1).push(
            wr(dvu_at(ch as int, (VOL0R_OFF + (n - 1) * 4) as usize), volumes[n - 1]),
        )
    }
}

/// The accesses of [`apply_dvu_after_init`].
pub open spec fn spec_apply_dvu_ops(ch: u8, cfg: DvuConfig) -> Seq<Access> {
    if cfg.bypass {
        Seq::empty()
    } else {
        let n = cfg.audio.channels;
        let (vrpdr, vrdbr) = match cfg.ramp {
            Some(r) => (r.vrpdr, r.vrdbr),
            None => (0u32, 0u32),
        };
        seq![wr(
            dvu_at(ch as int, ZCMCR_OFF),
            if cfg.zero_cross_mute { spec_low_bits(n) } else { 0 },
        )] + spec_vol_ops(ch, cfg.volumes, n as int) + seq![
            wr(dvu_at(ch as int, DVUCR_OFF), DVUCR_VRMD | DVUCR_VVMD),
            wr(dvu_at(ch as int, VRCTR_OFF), spec_low_bits(n)),
            wr(dvu_at(ch as int, VRPDR_OFF), vrpdr),
            wr(dvu_at(ch as int, VRDBR_OFF), vrdbr),
            wr(dvu_at(ch as int, VRWTR_OFF), 0),
            wr(dvu_at(ch as int, DVUER_OFF), DVUER_DVUEN),
        ]
    }
}

/// Second phase of DVU setup, once its INIT is clear (nothing when the DVU
/// is bypassed): zero-cross mute for the active channels, their volumes, the
/// ramp and digital-volume modes, the ramp enable for the active channels
/// with the configured period and step (zero for an instant change), and
/// DVUER last.
pub fn apply_dvu_after_init(s: &mut Shadow, ch: u8, cfg: DvuConfig)
    requires
        cfg.audio.channels <= 8,
    ensures
        performed(*old(s), *final(s), spec_apply_dvu_ops(ch, cfg)),
{
    let ghost s0 = *s;
    proof {
        crate::mmio::lemma_performed_nothing(s0);
    }
    if cfg.bypass {
        return ;
    }
    let n = cfg.audio.channels;
    let zcmcr_val = if cfg.zero_cross_mute { low_bits(n) } else { 0 };
    let Ghost(d1) = w32(s, dvu(ch, ZCMCR_OFF), zcmcr_val * ZCMCR_ZCEN, Ghost(s0), Ghost(Seq::empty()));
    let ghost head = d1;
    let ghost mut d = d1;
    let mut i: u8 = 0;
    assert(d =~= head + spec_vol_ops(ch, cfg.volumes, 0));
    while i < n
        invariant
            n == cfg.audio.channels,
            n <= 8,
            i <= n,
            performed(s0, *s, d),
            d == head + spec_vol_ops(ch, cfg.volumes, i as int),
        decreases n - i,
    {
        let Ghost(d2) = w32(s, dvu(ch, vol_off(i)), cfg.volumes[i as usize], Ghost(s0), Ghost(d));
        proof {
            assert(d2 =~= head + spec_vol_ops(ch, cfg.volumes, i + 1));
            d = d2;
        }
        i += 1;
    }
    let Ghost(d3) = w32(s, dvu(ch, DVUCR_OFF), DVUCR_VRMD | DVUCR_VVMD, Ghost(s0), Ghost(d));
    let vren_mask = low_bits(n);
    let (vrpdr, vrdbr) = match cfg.ramp {
        Some(r) => (r.vrpdr, r.vrdbr),
        None => (0, 0),
    };
    let Ghost(d4) = w32(s, dvu(ch, VRCTR_OFF), vren_mask * VRCTR_VREN, Ghost(s0), Ghost(d3));
    let Ghost(d5) = w32(s, dvu(ch, VRPDR_OFF), vrpdr, Ghost(s0), Ghost(d4));
    let Ghost(d6) = w32(s, dvu(ch, VRDBR_OFF), vrdbr, Ghost(s0), Ghost(d5));
    let Ghost(d7) = w32(s, dvu(ch, VRWTR_OFF), 0, Ghost(s0), Ghost(d6));
    let Ghost(d8) = w32(s, dvu(ch, DVUER_OFF), DVUER_DVUEN, Ghost(s0), Ghost(d7));
    assert(d8 =~= spec_apply_dvu_ops(ch, cfg));
}

/// After the second DVU phase of a path that is not bypassed, the ramp
/// period register VRPDR holds the configured period and the ramp step
/// register VRDBR the configured step (both 0 without a ramp), and the DVU
/// is enabled.
pub proof fn lemma_apply_dvu_sets_ramp(before: Shadow, after: Shadow, ch: u8, cfg: DvuConfig)
    requires
        !cfg.bypass,
        performed(before, after, spec_apply_dvu_ops(ch, cfg)),
    ensures
        spec_read(after.mem(), dvu_at(ch as int, VRPDR_OFF), 4) == (match cfg.ramp {
            Some(r) => r.vrpdr,
            None => 0u32,
        }),
        spec_read(after.mem(), dvu_at(ch as int, VRDBR_OFF), 4) == (match cfg.ramp {
            Some(r) => r.vrdbr,
            None => 0u32,
        }),
        spec_read(after.mem(), dvu_at(ch as int, DVUER_OFF), 4) == DVUER_DVUEN,
{
    let n = cfg.audio.channels;
    let (vrpdr, vrdbr) = match cfg.ramp {
        Some(r) => (r.vrpdr, r.vrdbr),
        None => (0u32, 0u32),
    };
    let head = seq![wr(
        dvu_at(ch as int, ZCMCR_OFF),
        if cfg.zero_cross_mute { spec_low_bits(n) } else { 0 },
    )] + spec_vol_ops(ch, cfg.volumes, n as int);
    let w_cr = wr(dvu_at(ch as int, DVUCR_OFF), DVUCR_VRMD | DVUCR_VVMD);
    let w_ctr = wr(dvu_at(ch as int, VRCTR_OFF), spec_low_bits(n));
    let w_pd = wr(dvu_at(ch as int, VRPDR_OFF), vrpdr);
    let w_db = wr(dvu_at(ch as int, VRDBR_OFF), vrdbr);
    let w_wt = wr(dvu_at(ch as int, VRWTR_OFF), 0);
    let w_er = wr(dvu_at(ch as int, DVUER_OFF), DVUER_DVUEN);
    let ops = spec_apply_dvu_ops(ch, cfg);
    let mem = before.mem();
    assert(ops =~= head.push(w_cr).push(w_ctr).push(w_pd) + seq![w_db, w_wt, w_er]);
    assert(ops =~= head.push(w_cr).push(w_ctr).push(w_pd).push(w_db) + seq![w_wt, w_er]);
    assert(ops =~= head.push(w_cr).push(w_ctr).push(w_pd).push(w_db).push(w_wt).push(w_er) + Seq::<Access>::empty());
    let post_pd = seq![w_db, w_wt, w_er];
    assert(untouched(post_pd, dvu_at(ch as int, VRPDR_OFF), 4)) by {
        assert forall|i: int| 0 <= i < post_pd.len() && (#[trigger] post_pd[i]).write implies apart(
            post_pd[i].addr as int, post_pd[i].width as int, dvu_at(ch as int, VRPDR_OFF) as int, 4) by {
            if i == 0 { assert(post_pd[i] == w_db); } else if i == 1 { assert(post_pd[i] == w_wt); } else { assert(post_pd[i] == w_er); }
        }
    }
    let post_db = seq![w_wt, w_er];
    assert(untouched(post_db, dvu_at(ch as int, VRDBR_OFF), 4)) by {
        assert forall|i: int| 0 <= i < post_db.len() && (#[trigger] post_db[i]).write implies apart(
            post_db[i].addr as int, post_db[i].width as int, dvu_at(ch as int, VRDBR_OFF) as int, 4) by {
            if i == 0 { assert(post_db[i] == w_wt); } else { assert(post_db[i] == w_er); }
        }
    }
    crate::mmio::lemma_read_last_write(mem, head.push(w_cr).push(w_ctr), dvu_at(ch as int, VRPDR_OFF), vrpdr, post_pd);
    crate::mmio::lemma_read_last_write(mem, head.push(w_cr).push(w_ctr).push(w_pd), dvu_at(ch as int, VRDBR_OFF), vrdbr, post_db);
    crate::mmio::lemma_read_last_write(mem, head.push(w_cr).push(w_ctr).push(w_pd).push(w_db).push(w_wt), dvu_at(ch as int, DVUER_OFF), DVUER_DVUEN, Seq::empty());
}

/// Arming a ramp leaves its period in VRPDR, its step in VRDBR and the
/// ramp enabled in VRCTR.
pub proof fn lemma_start_ramp_sets_registers(before: Shadow, after: Shadow, ch: u8, ramp: RampConfig)
    requires
        performed(before, after, spec_start_ramp_ops(ch, ramp)),
    ensures
        spec_read(after.mem(), dvu_at(ch as int, VRPDR_OFF), 4) == ramp.vrpdr,
        spec_read(after.mem(), dvu_at(ch as int, VRDBR_OFF), 4) == ramp.vrdbr,
        spec_read(after.mem(), dvu_at(ch as int, VRCTR_OFF), 4) == VRCTR_VREN,
{
    let w_pd = wr(dvu_at(ch as int, VRPDR_OFF), ramp.vrpdr);
    let w_db = wr(dvu_at(ch as int, VRDBR_OFF), ramp.vrdbr);
    let w_ct = wr(dvu_at(ch as int, VRCTR_OFF), VRCTR_VREN);
    let ops = spec_start_ramp_ops(ch, ramp);
    let e = Seq::<Access>::empty();
    assert(ops =~= e.push(w_pd) + seq![w_db, w_ct]);
    assert(ops =~= e.push(w_pd).push(w_db) + seq![w_ct]);
    assert(ops =~= e.push(w_pd).push(w_db).push(w_ct) + e);
    let p1 = seq![w_db, w_ct];
    assert(untouched(p1, dvu_at(ch as int, VRPDR_OFF), 4)) by {
        assert forall|i: int| 0 <= i < p1.len() && (#[trigger] p1[i]).write implies apart(
            p1[i].addr as int, p1[i].width as int, dvu_at(ch as int, VRPDR_OFF) as int, 4) by {
            if i == 0 { assert(p1[i] == w_db); } else { assert(p1[i] == w_ct); }
        }
    }
    let p2 = seq![w_ct];
    assert(untouched(p2, dvu_at(ch as int, VRDBR_OFF), 4)) by {
        assert forall|i: int| 0 <= i < p2.len() && (#[trigger] p2[i]).write implies apart(
            p2[i].addr as int, p2[i].width as int, dvu_at(ch as int, VRDBR_OFF) as int, 4) by {
            assert(p2[i] == w_ct);
        }
    }
    crate::mmio::lemma_read_last_write(before.mem(), e, dvu_at(ch as int, VRPDR_OFF), ramp.vrpdr, p1);
    crate::mmio::lemma_read_last_write(before.mem(), e.push(w_pd), dvu_at(ch as int, VRDBR_OFF), ramp.vrdbr, p2);
    crate::mmio::lemma_read_last_write(before.mem(), e.push(w_pd).push(w_db), dvu_at(ch as int, VRCTR_OFF), VRCTR_VREN, e);
}

/// Set the volume of audio channel `audio_ch` of DVU `dvu_ch` (4.20 fixed
/// point: 0 mutes, 0x0010_0000 is unity).
pub fn set_volume(s: &mut Shadow, dvu_ch: u8, audio_ch: u8, vol: u32)
    ensures
        performed(
            *old(s),
            *final(s),
            seq![wr(dvu_at(dvu_ch as int, (VOL0R_OFF + audio_ch * 4) as usize), vol)],
        ),
{
    write_one(s, dvu(dvu_ch, vol_off(audio_ch)), vol);
}

/// Writes of `vol` to the first `n` volume registers of DVU `ch`.
pub open spec fn spec_volume_all_ops(ch: u8, vol: u32, n: int) -> Seq<Access>
    decreases n,
{
    if n <= 0 {
        Seq::empty()
    } else {
        spec_volume_all_ops(ch, vol, n - 1).push(
            wr(dvu_at(ch as int, (VOL0R_OFF + (n - 1) * 4) as usize), vol),
        )
    }
}

/// Set the same volume on audio channels `0..n_channels` of DVU `dvu_ch`.
pub fn set_volume_all(s: &mut Shadow, dvu_ch: u8, n_channels: u8, vol: u32)
    ensures
        performed(*old(s), *final(s), spec_volume_all_ops(dvu_ch, vol, n_channels as int)),
{
    let ghost s0 = *s;
    proof {
        crate::mmio::lemma_performed_nothing(s0);
    }
    let ghost mut d = Seq::<Access>::empty();
    let mut i: u8 = 0;
    while i < n_channels
        invariant
            i <= n_channels,
            performed(s0, *s, d),
            d == spec_volume_all_ops(dvu_ch, vol, i as int),
        decreases n_channels - i,
    {
        let Ghost(d2) = w32(s, dvu(dvu_ch, vol_off(i)), vol, Ghost(s0), Ghost(d));
        proof {
            d = d2;
        }
        i += 1;
    }
}

/// The accesses of [`start_ramp`].
pub open spec fn spec_start_ramp_ops(ch: u8, ramp: RampConfig) -> Seq<Access> {
    seq![
        wr(dvu_at(ch as int, VRPDR_OFF), ramp.vrpdr),
        wr(dvu_at(ch as int, VRDBR_OFF), ramp.vrdbr),
        wr(dvu_at(ch as int, VRCTR_OFF), VRCTR_VREN),
    ]
}

/// Arm the volume ramp of DVU `dvu_ch`: period, step, then ramp enable.
pub fn start_ramp(s: &mut Shadow, dvu_ch: u8, ramp: RampConfig)
    ensures
        performed(*old(s), *final(s), spec_start_ramp_ops(dvu_ch, ramp)),
{
    let ghost s0 = *s;
    proof {
        crate::mmio::lemma_performed_nothing(s0);
    }
    let Ghost(d1) = w32(s, dvu(dvu_ch, VRPDR_OFF), ramp.vrpdr, Ghost(s0), Ghost(Seq::empty()));
    let Ghost(d2) = w32(s, dvu(dvu_ch, VRDBR_OFF), ramp.vrdbr, Ghost(s0), Ghost(d1));
    let Ghost(d3) = w32(s, dvu(dvu_ch, VRCTR_OFF), VRCTR_VREN, Ghost(s0), Ghost(d2));
    assert(d3 =~= spec_start_ramp_ops(dvu_ch, ramp));
}

/// The accesses of [`configure_mix`].
pub open spec fn spec_configure_mix_ops(cfg: MixConfig) -> Seq<Access> {
    if cfg.bypass {
        seq![wr(mix_at(MADIR_OFF), cfg.audio.spec_to_reg()), wr(mix_at(MIXBR_OFF), MIXBR_BYPASS)]
    } else {
        seq![
            wr(mix_at(MADIR_OFF), cfg.audio.spec_to_reg()),
            wr(mix_at(MIXBR_OFF), 0),
            wr(mix_at(MDB0R_OFF), 0),
            wr(mix_at(MDB1R_OFF), 0),
            wr(mix_at(MDB2R_OFF), 0),
            wr(mix_at(MDB3R_OFF), 0),
            wr(mix_at(MDBER_OFF), MDBER_MIXDBEN),
        ]
    }
}

/// Configure the mixer while its INIT is set: the audio format, and either
/// bypass or unity gain on all four inputs with the gains enabled.
pub fn configure_mix(s: &mut Shadow, cfg: MixConfig)
    ensures
        performed(*old(s), *final(s), spec_configure_mix_ops(cfg)),
{
    let ghost s0 = *s;
    proof {
        crate::mmio::lemma_performed_nothing(s0);
    }
    let Ghost(d1) = w32(s, mix(MADIR_OFF), cfg.audio.to_reg(), Ghost(s0), Ghost(Seq::empty()));
    if cfg.bypass {
        let Ghost(d2) = w32(s, mix(MIXBR_OFF), MIXBR_BYPASS, Ghost(s0), Ghost(d1));
        assert(d2 =~= spec_configure_mix_ops(cfg));
    } else {
        let Ghost(d2) = w32(s, mix(MIXBR_OFF), 0, Ghost(s0), Ghost(d1));
        let Ghost(d3) = w32(s, mix(MDB0R_OFF), 0, Ghost(s0), Ghost(d2));
        let Ghost(d4) = w32(s, mix(MDB1R_OFF), 0, Ghost(s0), Ghost(d3));
        let Ghost(d5) = w32(s, mix(MDB2R_OFF), 0, Ghost(s0), Ghost(d4));
        let Ghost(d6) = w32(s, mix(MDB3R_OFF), 0, Ghost(s0), Ghost(d5));
        let Ghost(d7) = w32(s, mix(MDBER_OFF), MDBER_MIXDBEN, Ghost(s0), Ghost(d6));
        assert(d7 =~= spec_configure_mix_ops(cfg));
    }
}

/// The gain register of mixer input `source` (0–2; anything else is 3).
pub open spec fn spec_mdb_off(source: u8) -> usize {
    if source == 0 {
        MDB0R_OFF
    } else if source == 1 {
        MDB1R_OFF
    } else if source == 2 {
        MDB2R_OFF
    } else {
        MDB3R_OFF
    }
}

/// Set the 10-bit dB gain of mixer input `source` (0 = unity, 0x3FF =
/// mute); sources above 3 address input 3.
pub fn set_mix_source_gain(s: &mut Shadow, source: u8, gain: u32)
    ensures
        performed(*old(s), *final(s), seq![wr(mix_at(spec_mdb_off(source)), gain & 0x3FF)]),
{
    let off = match source {
        0 => MDB0R_OFF,
        1 => MDB1R_OFF,
        2 => MDB2R_OFF,
        _ => MDB3R_OFF,
    };
    write_one(s, mix(off), gain & 0x3FF);
}

/// The FDTSELn register of SRC unit `unit` (0–2; anything else is 3).
pub open spec fn spec_fdtsel_off(unit: u8) -> usize {
    if unit == 0 {
        FDTSEL0_CIM_OFF
    } else if unit == 1 {
        FDTSEL1_CIM_OFF
    } else if unit == 2 {
        FDTSEL2_CIM_OFF
    } else {
        FDTSEL3_CIM_OFF
    }
}

/// Set the input timing-signal selector (FDTSELn) of SRC unit `src_unit`.
pub fn set_fdtsel(s: &mut Shadow, src_unit: u8, val: u32)
    ensures
        performed(*old(s), *final(s), seq![wr(cim_at(spec_fdtsel_off(src_unit)), val)]),
{
    let off = match src_unit {
        0 => FDTSEL0_CIM_OFF,
        1 => FDTSEL1_CIM_OFF,
        2 => FDTSEL2_CIM_OFF,
        _ => FDTSEL3_CIM_OFF,
    };
    write_one(s, cim(off), val);
}

/// The FUTSELn register of SRC unit `unit` (0–2; anything else is 3).
pub open spec fn spec_futsel_off(unit: u8) -> usize {
    if unit == 0 {
        FUTSEL0_CIM_OFF
    } else if unit == 1 {
        FUTSEL1_CIM_OFF
    } else if unit == 2 {
        FUTSEL2_CIM_OFF
    } else {
        FUTSEL3_CIM_OFF
    }
}

/// Set the output timing-signal selector (FUTSELn) of SRC unit `src_unit`.
pub fn set_futsel(s: &mut Shadow, src_unit: u8, val: u32)
    ensures
        performed(*old(s), *final(s), seq![wr(cim_at(spec_futsel_off(src_unit)), val)]),
{
    let off = match src_unit {
        0 => FUTSEL0_CIM_OFF,
        1 => FUTSEL1_CIM_OFF,
        2 => FUTSEL2_CIM_OFF,
        _ => FUTSEL3_CIM_OFF,
    };
    write_one(s, cim(off), val);
}

/// Write the SSI -> SRC route selector (SSIRSEL) verbatim.
pub fn set_ssirsel(s: &mut Shadow, ssirsel: u32)
    ensures
        performed(*old(s), *final(s), seq![wr(cim_at(SSIRSEL_CIM_OFF), ssirsel)]),
{
    write_one(s, cim(SSIRSEL_CIM_OFF), ssirsel);
}

/// Write the SSI pin-mode register (SSIPMD) verbatim.
pub fn set_ssipmd(s: &mut Shadow, val: u32)
    ensures
        performed(*old(s), *final(s), seq![wr(cim_at(SSIPMD_CIM_OFF), val)]),
{
    write_one(s, cim(SSIPMD_CIM_OFF), val);
}

/// Write the SSI control register (SSICTRL) verbatim.
pub fn set_ssictrl(s: &mut Shadow, val: u32)
    ensures
        performed(*old(s), *final(s), seq![wr(cim_at(SSICTRL_CIM_OFF), val)]),
{
    write_one(s, cim(SSICTRL_CIM_OFF), val);
}

/// The DMA channel chosen for each FFD and each FFU path, recorded when the
/// path's DMA is set up so that starting a path can start its channel.
pub struct ScuxDma {
    ffd: Vec<u8>,
    ffu: Vec<u8>,
}

impl ScuxDma {
    /// The DMA channel of FFD path 0..4.
    pub closed spec fn ffd_chans(&self) -> Seq<u8> {
        self.ffd@
    }

    /// The DMA channel of FFU path 0..4.
    pub closed spec fn ffu_chans(&self) -> Seq<u8> {
        self.ffu@
    }

    /// One channel number per path.
    pub open spec fn wf(&self) -> bool {
        self.ffd_chans().len() == 4 && self.ffu_chans().len() == 4
    }

    /// No path set up yet: every recorded channel is 0.
    pub fn new() -> (d: ScuxDma)
        ensures
            d.wf(),
            d.ffd_chans() == seq![0u8, 0u8, 0u8, 0u8],
            d.ffu_chans() == seq![0u8, 0u8, 0u8, 0u8],
    {
        let d = ScuxDma { ffd: vec![0u8, 0u8, 0u8, 0u8], ffu: vec![0u8, 0u8, 0u8, 0u8] };
        assert(d.ffd@ =~= seq![0u8, 0u8, 0u8, 0u8]);
        assert(d.ffu@ =~= seq![0u8, 0u8, 0u8, 0u8]);
        d
    }
}

/// The DMA channel recorded for FFD path `ffd_ch`.
pub fn ffd_dma_ch(dma: &ScuxDma, ffd_ch: u8) -> (c: u8)
    requires
        dma.wf(),
        ffd_ch < 4,
    ensures
        c == dma.ffd_chans()[ffd_ch as int],
{
    dma.ffd[ffd_ch as usize]
}

/// The recorded channels after the FFD setups `setups` (path, channel), in
/// order, starting from `chans`.
pub open spec fn spec_after_ffd_setups(chans: Seq<u8>, setups: Seq<(int, u8)>) -> Seq<u8>
    decreases setups.len(),
{
    if setups.len() == 0 {
        chans
    } else {
        spec_after_ffd_setups(chans, setups.drop_last()).update(setups.last().0, setups.last().1)
    }
}

/// An FFD path keeps the channel it was set up with: after
/// [`init_ffd_dma`] records `dma_ch` for `ffd_ch`, later setups of other FFD
/// paths (and FFU setups, which leave the FFD channels alone) do not change
/// what [`ffd_dma_ch`] reads back for it.
pub proof fn lemma_ffd_channel_kept(chans: Seq<u8>, ffd_ch: int, dma_ch: u8, later: Seq<(int, u8)>)
    requires
        chans.len() == 4,
        0 <= ffd_ch < 4,
        forall|k: int| 0 <= k < later.len() ==> 0 <= #[trigger] later[k].0 < 4 && later[k].0 != ffd_ch,
    ensures
        spec_after_ffd_setups(chans.update(ffd_ch, dma_ch), later).len() == 4,
        spec_after_ffd_setups(chans.update(ffd_ch, dma_ch), later)[ffd_ch] == dma_ch,
    decreases later.len(),
{
    if later.len() > 0 {
        let prev = later.drop_last();
        assert forall|k: int| 0 <= k < prev.len() implies 0 <= #[trigger] prev[k].0 < 4 && prev[k].0 != ffd_ch by {
            assert(prev[k] == later[k]);
        }
        lemma_ffd_channel_kept(chans, ffd_ch, dma_ch, prev);
        assert(later.last() == later[later.len() - 1]);
    }
}

/// CIM offset of the DMA data register of FFD path `ffd_ch`.
pub open spec fn spec_dmatd_off(ffd_ch: u8) -> usize {
    if ffd_ch == 0 {
        DMATD0_CIM_OFF
    } else if ffd_ch == 1 {
        DMATD1_CIM_OFF
    } else if ffd_ch == 2 {
        DMATD2_CIM_OFF
    } else {
        DMATD3_CIM_OFF
    }
}

/// DMARS selector of FFD path `ffd_ch`.
pub open spec fn spec_ffd_dmars(ffd_ch: u8) -> u32 {
    if ffd_ch == 0 {
        DMARS_SCUTXI0
    } else if ffd_ch == 1 {
        DMARS_SCUTXI1
    } else if ffd_ch == 2 {
        DMARS_SCUTXI2
    } else {
        DMARS_SCUTXI3
    }
}

/// CIM offset of the DMA data register of FFU path `ffu_ch`.
pub open spec fn spec_dmatu_off(ffu_ch: u8) -> usize {
    if ffu_ch == 0 {
        DMATU0_CIM_OFF
    } else if ffu_ch == 1 {
        DMATU1_CIM_OFF
    } else if ffu_ch == 2 {
        DMATU2_CIM_OFF
    } else {
        DMATU3_CIM_OFF
    }
}

/// DMARS selector of FFU path `ffu_ch`.
pub open spec fn spec_ffu_dmars(ffu_ch: u8) -> u32 {
    if ffu_ch == 0 {
        DMARS_SCURXI0
    } else if ffu_ch == 1 {
        DMARS_SCURXI1
    } else if ffu_ch == 2 {
        DMARS_SCURXI2
    } else {
        DMARS_SCURXI3
    }
}

/// The self-linked descriptor of FFD path `ffd_ch`: from `src_buf` to the
/// path's DMA data register, `buf_bytes` bytes, on DMA channel `dma_ch`,
/// linking back to itself at `desc_addr`.
pub open spec fn spec_ffd_descriptor(
    ffd_ch: u8,
    dma_ch: u8,
    src_buf: u32,
    buf_bytes: usize,
    desc_addr: u32,
) -> Seq<u32> {
    seq![
        DESC_HEADER,
        src_buf,
        (CIM_BASE + spec_dmatd_off(ffd_ch)) as u32,
        buf_bytes as u32,
        spec_ffd_chcfg(dma_ch),
        0u32,
        0u32,
        desc_addr,
    ]
}

/// The self-linked descriptor of FFU path `ffu_ch`: from the path's DMA data
/// register to `dst_buf`, `buf_bytes` bytes, on DMA channel `dma_ch`.
pub open spec fn spec_ffu_descriptor(
    ffu_ch: u8,
    dma_ch: u8,
    dst_buf: u32,
    buf_bytes: usize,
    desc_addr: u32,
) -> Seq<u32> {
    seq![
        DESC_HEADER,
        (CIM_BASE + spec_dmatu_off(ffu_ch)) as u32,
        dst_buf,
        buf_bytes as u32,
        spec_ffu_chcfg(dma_ch),
        0u32,
        0u32,
        desc_addr,
    ]
}

/// Set up the looping DMA of FFD path `ffd_ch` on channel `dma_ch`: record
/// the channel, build the self-linked descriptor (returned, to be placed at
/// the uncached address `desc_addr`) and initialise the channel from it
/// with the path's DMARS selector.
pub fn init_ffd_dma(
    dma: &mut ScuxDma,
    s: &mut Shadow,
    ffd_ch: u8,
    dma_ch: u8,
    src_buf: u32,
    buf_bytes: usize,
    desc_addr: u32,
) -> (desc: [u32; 8])
    requires
        old(dma).wf(),
        ffd_ch < 4,
    ensures
        final(dma).wf(),
        final(dma).ffd_chans() == old(dma).ffd_chans().update(ffd_ch as int, dma_ch),
        final(dma).ffu_chans() == old(dma).ffu_chans(),
        desc@ == spec_ffd_descriptor(ffd_ch, dma_ch, src_buf, buf_bytes, desc_addr),
        performed(
            *old(s),
            *final(s),
            dmac::spec_init_link_ops(
                dma_ch,
                spec_ffd_chcfg(dma_ch),
                desc_addr,
                spec_ffd_dmars(ffd_ch),
                spec_read(old(s).mem(), dmac::spec_dmars_reg(dma_ch) as usize, 4),
            ),
        ),
{
    dma.ffd.set(ffd_ch as usize, dma_ch);
    let (dmatd_off, dmars) = match ffd_ch {
        0 => (DMATD0_CIM_OFF, DMARS_SCUTXI0),
        1 => (DMATD1_CIM_OFF, DMARS_SCUTXI1),
        2 => (DMATD2_CIM_OFF, DMARS_SCUTXI2),
        _ => (DMATD3_CIM_OFF, DMARS_SCUTXI3),
    };
    let desc: [u32; 8] = [
        DESC_HEADER,
        src_buf,
        (CIM_BASE + dmatd_off) as u32,
        buf_bytes as u32,
        ffd_chcfg(dma_ch),
        0,
        0,
        desc_addr,
    ];
    assert(desc@ =~= spec_ffd_descriptor(ffd_ch, dma_ch, src_buf, buf_bytes, desc_addr));
    dmac::init_with_link_descriptor(s, dma_ch, &desc, desc_addr, dmars);
    desc
}

/// Set up the looping DMA of FFU path `ffu_ch` on channel `dma_ch`, as
/// [`init_ffd_dma`] does for an FFD path.
pub fn init_ffu_dma(
    dma: &mut ScuxDma,
    s: &mut Shadow,
    ffu_ch: u8,
    dma_ch: u8,
    dst_buf: u32,
    buf_bytes: usize,
    desc_addr: u32,
) -> (desc: [u32; 8])
    requires
        old(dma).wf(),
        ffu_ch < 4,
    ensures
        final(dma).wf(),
        final(dma).ffu_chans() == old(dma).ffu_chans().update(ffu_ch as int, dma_ch),
        final(dma).ffd_chans() == old(dma).ffd_chans(),
        desc@ == spec_ffu_descriptor(ffu_ch, dma_ch, dst_buf, buf_bytes, desc_addr),
        performed(
            *old(s),
            *final(s),
            dmac::spec_init_link_ops(
                dma_ch,
                spec_ffu_chcfg(dma_ch),
                desc_addr,
                spec_ffu_dmars(ffu_ch),
                spec_read(old(s).mem(), dmac::spec_dmars_reg(dma_ch) as usize, 4),
            ),
        ),
{
    dma.ffu.set(ffu_ch as usize, dma_ch);
    let (dmatu_off, dmars) = match ffu_ch {
        0 => (DMATU0_CIM_OFF, DMARS_SCURXI0),
        1 => (DMATU1_CIM_OFF, DMARS_SCURXI1),
        2 => (DMATU2_CIM_OFF, DMARS_SCURXI2),
        _ => (DMATU3_CIM_OFF, DMARS_SCURXI3),
    };
    let desc: [u32; 8] = [
        DESC_HEADER,
        (CIM_BASE + dmatu_off) as u32,
        dst_buf,
        buf_bytes as u32,
        ffu_chcfg(dma_ch),
        0,
        0,
        desc_addr,
    ];
    assert(desc@ =~= spec_ffu_descriptor(ffu_ch, dma_ch, dst_buf, buf_bytes, desc_addr));
    dmac::init_with_link_descriptor(s, dma_ch, &desc, desc_addr, dmars);
    desc
}

/// Bit `i` of `mask` is set.
pub open spec fn has(mask: u8, i: int) -> bool {
    mask & (1u8 << (i as u8)) != 0
}

/// For each of blocks `0..n` whose bit is set in `mask`, one write of `val`
/// to the register at `base + i * stride + off`.
pub open spec fn spec_masked_writes(
    mask: u8,
    base: usize,
    stride: usize,
    off: usize,
    val: u32,
    n: int,
) -> Seq<Access>
    decreases n,
{
    if n <= 0 {
        Seq::empty()
    } else {
        let prev = spec_masked_writes(mask, base, stride, off, val, n - 1);
        if has(mask, n - 1) {
            prev.push(wr((base + (n - 1) * stride + off) as usize, val))
        } else {
            prev
        }
    }
}

/// For each of FFD / FFU paths `0..n` whose bit is set in `mask`, the start
/// of its recorded DMA channel.
pub open spec fn spec_dma_start_ops(mask: u8, chans: Seq<u8>, n: int) -> Seq<Access>
    decreases n,
{
    if n <= 0 {
        Seq::empty()
    } else {
        let prev = spec_dma_start_ops(mask, chans, n - 1);
        if has(mask, n - 1) {
            prev + dmac::spec_channel_start_ops(chans[n - 1])
        } else {
            prev
        }
    }
}

/// For each of FFD paths `0..n` whose bit is set in `mask`: clear INIT, then
/// boot the FIFO.
pub open spec fn spec_ffd_boot_ops(mask: u8, n: int) -> Seq<Access>
    decreases n,
{
    if n <= 0 {
        Seq::empty()
    } else {
        let prev = spec_ffd_boot_ops(mask, n - 1);
        if has(mask, n - 1) {
            prev + seq![wr(ffd_at(n - 1, FFDIR_OFF), INIT_CLR), wr(ffd_at(n - 1, FFDBR_OFF), FFDBR_BOOT)]
        } else {
            prev
        }
    }
}

/// For each of 2SRC paths `0..n` (path `i` is unit `i / 2`, pair `i % 2`)
/// whose bit is set in `mask`: write `val` to its SRCIR, and with `reload`
/// also to its unit's SRCIRR.
pub open spec fn spec_src_init_ops(mask: u8, val: u32, reload: bool, n: int) -> Seq<Access>
    decreases n,
{
    if n <= 0 {
        Seq::empty()
    } else {
        let prev = spec_src_init_ops(mask, val, reload, n - 1);
        let i = n - 1;
        if has(mask, i) {
            let w = seq![wr(src_at(i / 2, i % 2, SRCIR_OFF), val)];
            if reload {
                prev + w.push(wr(srcirr_at(i / 2), val))
            } else {
                prev + w
            }
        } else {
            prev
        }
    }
}

fn masked_writes(
    s: &mut Shadow,
    mask: u8,
    base: usize,
    stride: usize,
    off: usize,
    val: u32,
    Ghost(s0): Ghost<Shadow>,
    Ghost(done): Ghost<Seq<Access>>,
) -> (r: Ghost<Seq<Access>>)
    requires
        base + 3 * stride + off <= 0xFFFF_0000,
        performed(s0, *old(s), done),
    ensures
        r@ == done + spec_masked_writes(mask, base, stride, off, val, 4),
        performed(s0, *final(s), r@),
{
    let ghost mut d = done;
    let mut ch: u8 = 0;
    assert(d =~= done + spec_masked_writes(mask, base, stride, off, val, 0));
    while ch < 4
        invariant
            ch <= 4,
            base + 3 * stride + off <= 0xFFFF_0000,
            performed(s0, *s, d),
            d == done + spec_masked_writes(mask, base, stride, off, val, ch as int),
        decreases 4 - ch,
    {
        if mask & (1u8 << ch) != 0 {
            assert(ch as usize * stride <= 3 * stride) by (nonlinear_arith)
                requires
                    ch < 4,
            ;
            let Ghost(d2) = w32(s, base + ch as usize * stride + off, val, Ghost(s0), Ghost(d));
            proof {
                assert(d2 =~= done + spec_masked_writes(mask, base, stride, off, val, ch + 1));
                d = d2;
            }
        } else {
            assert(d =~= done + spec_masked_writes(mask, base, stride, off, val, ch + 1));
        }
        ch += 1;
    }
    Ghost(d)
}

/// `channel_start`, extending a run of accesses.
fn start_dma_channel(
    s: &mut Shadow,
    ch: u8,
    Ghost(s0): Ghost<Shadow>,
    Ghost(done): Ghost<Seq<Access>>,
) -> (r: Ghost<Seq<Access>>)
    requires
        performed(s0, *old(s), done),
    ensures
        r@ == done + dmac::spec_channel_start_ops(ch),
        performed(s0, *final(s), r@),
{
    let ghost before = *s;
    dmac::channel_start(s, ch);
    proof {
        crate::mmio::lemma_performed_chain(s0, before, *s, done, dmac::spec_channel_start_ops(ch));
    }
    Ghost(done + dmac::spec_channel_start_ops(ch))
}

fn dma_starts(
    s: &mut Shadow,
    mask: u8,
    chans: &Vec<u8>,
    Ghost(s0): Ghost<Shadow>,
    Ghost(done): Ghost<Seq<Access>>,
) -> (r: Ghost<Seq<Access>>)
    requires
        chans@.len() == 4,
        performed(s0, *old(s), done),
    ensures
        r@ == done + spec_dma_start_ops(mask, chans@, 4),
        performed(s0, *final(s), r@),
{
    let ghost mut d = done;
    let mut ch: u8 = 0;
    assert(d =~= done + spec_dma_start_ops(mask, chans@, 0));
    while ch < 4
        invariant
            ch <= 4,
            chans@.len() == 4,
            performed(s0, *s, d),
            d == done + spec_dma_start_ops(mask, chans@, ch as int),
        decreases 4 - ch,
    {
        if mask & (1u8 << ch) != 0 {
            let Ghost(d2) = start_dma_channel(s, chans[ch as usize], Ghost(s0), Ghost(d));
            proof {
                assert(d2 =~= done + spec_dma_start_ops(mask, chans@, ch + 1));
                d = d2;
            }
        } else {
            assert(d =~= done + spec_dma_start_ops(mask, chans@, ch + 1));
        }
        ch += 1;
    }
    Ghost(d)
}

fn ffd_boots(
    s: &mut Shadow,
    mask: u8,
    Ghost(s0): Ghost<Shadow>,
    Ghost(done): Ghost<Seq<Access>>,
) -> (r: Ghost<Seq<Access>>)
    requires
        performed(s0, *old(s), done),
    ensures
        r@ == done + spec_ffd_boot_ops(mask, 4),
        performed(s0, *final(s), r@),
{
    let ghost mut d = done;
    let mut ch: u8 = 0;
    assert(d =~= done + spec_ffd_boot_ops(mask, 0));
    while ch < 4
        invariant
            ch <= 4,
            performed(s0, *s, d),
            d == done + spec_ffd_boot_ops(mask, ch as int),
        decreases 4 - ch,
    {
        if mask & (1u8 << ch) != 0 {
            let Ghost(d2) = w32(s, ffd(ch, FFDIR_OFF), INIT_CLR, Ghost(s0), Ghost(d));
            let Ghost(d3) = w32(s, ffd(ch, FFDBR_OFF), FFDBR_BOOT, Ghost(s0), Ghost(d2));
            proof {
                assert(d3 =~= done + spec_ffd_boot_ops(mask, ch + 1));
                d = d3;
            }
        } else {
            assert(d =~= done + spec_ffd_boot_ops(mask, ch + 1));
        }
        ch += 1;
    }
    Ghost(d)
}

fn src_inits(
    s: &mut Shadow,
    mask: u8,
    val: u32,
    reload: bool,
    Ghost(s0): Ghost<Shadow>,
    Ghost(done): Ghost<Seq<Access>>,
) -> (r: Ghost<Seq<Access>>)
    requires
        performed(s0, *old(s), done),
    ensures
        r@ == done + spec_src_init_ops(mask, val, reload, 4),
        performed(s0, *final(s), r@),
{
    let ghost mut d = done;
    let mut idx: u8 = 0;
    assert(d =~= done + spec_src_init_ops(mask, val, reload, 0));
    while idx < 4
        invariant
            idx <= 4,
            performed(s0, *s, d),
            d == done + spec_src_init_ops(mask, val, reload, idx as int),
        decreases 4 - idx,
    {
        if mask & (1u8 << idx) != 0 {
            let unit = idx / 2;
            let pair = idx % 2;
            let Ghost(d2) = w32(s, src(unit, pair, SRCIR_OFF), val, Ghost(s0), Ghost(d));
            if reload {
                let Ghost(d3) = w32(s, srcirr(unit), val, Ghost(s0), Ghost(d2));
                proof {
                    assert(d3 =~= done + spec_src_init_ops(mask, val, reload, idx + 1));
                    d = d3;
                }
            } else {
                proof {
                    assert(d2 =~= done + spec_src_init_ops(mask, val, reload, idx + 1));
                    d = d2;
                }
            }
        } else {
            assert(d =~= done + spec_src_init_ops(mask, val, reload, idx + 1));
        }
        idx += 1;
    }
    Ghost(d)
}

/// The first half of the INIT clearing shared by [`start`] and
/// [`start_path`]: FFD (then boot), FFU, then the routing `routes`.
pub open spec fn spec_release_fifo_ops(ffd_mask: u8, ffu_mask: u8, routes: Seq<Access>) -> Seq<
    Access,
> {
    spec_ffd_boot_ops(ffd_mask, 4) + spec_masked_writes(ffu_mask, FFU_BASE, FFU_STRIDE, FFUIR_OFF, INIT_CLR, 4)
        + routes
}

/// The second half: 2SRC with its unit reload, DVU, MIX, IPC, and OPC last.
pub open spec fn spec_release_path_ops(
    src_mask: u8,
    dvu_mask: u8,
    mix_en: bool,
    ipc_mask: u8,
    opc_mask: u8,
) -> Seq<Access> {
    spec_src_init_ops(src_mask, INIT_CLR, true, 4) + spec_masked_writes(
        dvu_mask,
        DVU_BASE,
        DVU_STRIDE,
        DVUIR_OFF,
        INIT_CLR,
        4,
    ) + (if mix_en { seq![wr(mix_at(MIXIR_OFF), INIT_CLR)] } else { Seq::empty() })
        + spec_masked_writes(ipc_mask, IPC_BASE, IPC_STRIDE, IPCIR_OFF, INIT_CLR, 4)
        + spec_masked_writes(opc_mask, OPC_BASE, OPC_STRIDE, OPCIR_OFF, INIT_CLR, 4)
}

/// The INIT clearing shared by [`start`] and [`start_path`], after the DMA
/// channels are started.
pub open spec fn spec_release_ops(
    ffd_mask: u8,
    ffu_mask: u8,
    src_mask: u8,
    dvu_mask: u8,
    mix_en: bool,
    ipc_mask: u8,
    opc_mask: u8,
    routes: Seq<Access>,
) -> Seq<Access> {
    spec_release_fifo_ops(ffd_mask, ffu_mask, routes) + spec_release_path_ops(
        src_mask,
        dvu_mask,
        mix_en,
        ipc_mask,
        opc_mask,
    )
}

/// The identity routing written by [`start`] to SRCRSEL0–3 and MIXRSEL.
pub open spec fn spec_route_ops() -> Seq<Access> {
    seq![
        wr(cim_at(SRCRSEL0_CIM_OFF), 0x7654_3210),
        wr(cim_at(SRCRSEL1_CIM_OFF), 0x7654_3210),
        wr(cim_at(SRCRSEL2_CIM_OFF), 0x7654_3210),
        wr(cim_at(SRCRSEL3_CIM_OFF), 0x7654_3210),
        wr(cim_at(MIXRSEL_CIM_OFF), 0x7654_3210),
    ]
}

/// The DMACR bits of the FFD paths (3:0) and FFU paths (7:4).
pub open spec fn spec_dmacr_bits(ffd_mask: u8, ffu_mask: u8) -> u32 {
    (ffd_mask as u32) | ((ffu_mask as u32) << 4)
}

/// The DMA request enables that [`start_path`] writes keep every channel
/// already enabled and add the path's; [`stop_path`] on the same masks then
/// drops exactly the path's, so starting and stopping a path leaves the
/// other running channels as they were.
pub proof fn lemma_stop_path_undoes_start_path(cur: u32, ffd_mask: u8, ffu_mask: u8)
    ensures
        ({
            let b = spec_dmacr_bits(ffd_mask, ffu_mask);
            &&& (cur | b) & cur == cur
            &&& (cur | b) & b == b
            &&& (cur | b) & !b == cur & !b
        }),
{
    let b = spec_dmacr_bits(ffd_mask, ffu_mask);
    assert((cur | b) & cur == cur && (cur | b) & b == b && (cur | b) & !b == cur & !b)
        by (bit_vector);
}

/// The accesses of [`start`].
pub open spec fn spec_start_ops(
    dma: ScuxDma,
    ffd_mask: u8,
    ffu_mask: u8,
    src_mask: u8,
    dvu_mask: u8,
    mix_en: bool,
    ipc_mask: u8,
    opc_mask: u8,
) -> Seq<Access> {
    seq![wr(cim_at(DMACR_CIM_OFF), spec_dmacr_bits(ffd_mask, ffu_mask))] + spec_dma_start_ops(
        ffd_mask,
        dma.ffd_chans(),
        4,
    ) + spec_dma_start_ops(ffu_mask, dma.ffu_chans(), 4) + spec_release_ops(
        ffd_mask,
        ffu_mask,
        src_mask,
        dvu_mask,
        mix_en,
        ipc_mask,
        opc_mask,
        spec_route_ops(),
    )
}

fn release_fifos(
    s: &mut Shadow,
    ffd_mask: u8,
    ffu_mask: u8,
    routes: bool,
    Ghost(s0): Ghost<Shadow>,
    Ghost(done): Ghost<Seq<Access>>,
) -> (r: Ghost<Seq<Access>>)
    requires
        performed(s0, *old(s), done),
    ensures
        r@ == done + spec_release_fifo_ops(
            ffd_mask,
            ffu_mask,
            if routes { spec_route_ops() } else { Seq::empty() },
        ),
        performed(s0, *final(s), r@),
{
    let Ghost(d1) = ffd_boots(s, ffd_mask, Ghost(s0), Ghost(done));
    let Ghost(d2) = masked_writes(
        s,
        ffu_mask,
        FFU_BASE,
        FFU_STRIDE,
        FFUIR_OFF,
        INIT_CLR,
        Ghost(s0),
        Ghost(d1),
    );
    if routes {
        let Ghost(e1) = w32(s, cim(SRCRSEL0_CIM_OFF), 0x7654_3210, Ghost(s0), Ghost(d2));
        let Ghost(e2) = w32(s, cim(SRCRSEL1_CIM_OFF), 0x7654_3210, Ghost(s0), Ghost(e1));
        let Ghost(e3) = w32(s, cim(SRCRSEL2_CIM_OFF), 0x7654_3210, Ghost(s0), Ghost(e2));
        let Ghost(e4) = w32(s, cim(SRCRSEL3_CIM_OFF), 0x7654_3210, Ghost(s0), Ghost(e3));
        let Ghost(e5) = w32(s, cim(MIXRSEL_CIM_OFF), 0x7654_3210, Ghost(s0), Ghost(e4));
        assert(e5 =~= d2 + spec_route_ops());
        assert(e5 =~= done + spec_release_fifo_ops(ffd_mask, ffu_mask, spec_route_ops()));
        Ghost(e5)
    } else {
        assert(d2 =~= done + spec_release_fifo_ops(ffd_mask, ffu_mask, Seq::empty()));
        Ghost(d2)
    }
}

fn release_paths(
    s: &mut Shadow,
    src_mask: u8,
    dvu_mask: u8,
    mix_en: bool,
    ipc_mask: u8,
    opc_mask: u8,
    Ghost(s0): Ghost<Shadow>,
    Ghost(done): Ghost<Seq<Access>>,
) -> (r: Ghost<Seq<Access>>)
    requires
        performed(s0, *old(s), done),
    ensures
        r@ == done + spec_release_path_ops(src_mask, dvu_mask, mix_en, ipc_mask, opc_mask),
        performed(s0, *final(s), r@),
{
    let Ghost(d4) = src_inits(s, src_mask, INIT_CLR, true, Ghost(s0), Ghost(done));
    let Ghost(d5) = masked_writes(
        s,
        dvu_mask,
        DVU_BASE,
        DVU_STRIDE,
        DVUIR_OFF,
        INIT_CLR,
        Ghost(s0),
        Ghost(d4),
    );
    let ghost mut d6 = d5;
    if mix_en {
        let Ghost(e) = w32(s, mix(MIXIR_OFF), INIT_CLR, Ghost(s0), Ghost(d5));
        proof {
            d6 = e;
        }
    }
    assert(d6 =~= d5 + (if mix_en { seq![wr(mix_at(MIXIR_OFF), INIT_CLR)] } else { Seq::empty() }));
    let Ghost(d7) = masked_writes(
        s,
        ipc_mask,
        IPC_BASE,
        IPC_STRIDE,
        IPCIR_OFF,
        INIT_CLR,
        Ghost(s0),
        Ghost(d6),
    );
    let Ghost(d8) = masked_writes(
        s,
        opc_mask,
        OPC_BASE,
        OPC_STRIDE,
        OPCIR_OFF,
        INIT_CLR,
        Ghost(s0),
        Ghost(d7),
    );
    assert(d8 =~= done + spec_release_path_ops(src_mask, dvu_mask, mix_en, ipc_mask, opc_mask));
    Ghost(d8)
}

/// Shared tail of [`start`] and [`start_path`].
fn release(
    s: &mut Shadow,
    ffd_mask: u8,
    ffu_mask: u8,
    src_mask: u8,
    dvu_mask: u8,
    mix_en: bool,
    ipc_mask: u8,
    opc_mask: u8,
    routes: bool,
    Ghost(s0): Ghost<Shadow>,
    Ghost(done): Ghost<Seq<Access>>,
) -> (r: Ghost<Seq<Access>>)
    requires
        performed(s0, *old(s), done),
    ensures
        r@ == done + spec_release_ops(
            ffd_mask,
            ffu_mask,
            src_mask,
            dvu_mask,
            mix_en,
            ipc_mask,
            opc_mask,
            if routes { spec_route_ops() } else { Seq::empty() },
        ),
        performed(s0, *final(s), r@),
{
    let Ghost(d1) = release_fifos(s, ffd_mask, ffu_mask, routes, Ghost(s0), Ghost(done));
    let Ghost(d2) = release_paths(s, src_mask, dvu_mask, mix_en, ipc_mask, opc_mask, Ghost(s0), Ghost(d1));
    assert(d2 =~= done + spec_release_ops(
        ffd_mask,
        ffu_mask,
        src_mask,
        dvu_mask,
        mix_en,
        ipc_mask,
        opc_mask,
        if routes { spec_route_ops() } else { Seq::empty() },
    ));
    Ghost(d2)
}

/// Start the configured blocks: enable the FFD / FFU DMA requests in DMACR
/// (bit `i` of `ffd_mask` is FFD path `i`, bit `i` of `ffu_mask` lands in
/// bit `i + 4`), start the paths' recorded DMA channels, then clear INIT in
/// the order FFD (and boot), FFU, identity routing, 2SRC (`src_mask` bit
/// `i` = unit `i / 2`, pair `i % 2`, with its unit reload), DVU, MIX, IPC,
/// and OPC last. Only bits 0–3 of each mask select blocks.
pub fn start(
    dma: &ScuxDma,
    s: &mut Shadow,
    ffd_mask: u8,
    ffu_mask: u8,
    src_mask: u8,
    dvu_mask: u8,
    mix_en: bool,
    ipc_mask: u8,
    opc_mask: u8,
)
    requires
        dma.wf(),
    ensures
        performed(
            *old(s),
            *final(s),
            spec_start_ops(*dma, ffd_mask, ffu_mask, src_mask, dvu_mask, mix_en, ipc_mask, opc_mask),
        ),
{
    let ghost s0 = *s;
    proof {
        crate::mmio::lemma_performed_nothing(s0);
    }
    let dmacr = (ffd_mask as u32) | ((ffu_mask as u32) << 4);
    let Ghost(d1) = w32(s, cim(DMACR_CIM_OFF), dmacr, Ghost(s0), Ghost(Seq::empty()));
    let Ghost(d2) = dma_starts(s, ffd_mask, &dma.ffd, Ghost(s0), Ghost(d1));
    let Ghost(d3) = dma_starts(s, ffu_mask, &dma.ffu, Ghost(s0), Ghost(d2));
    let Ghost(d4) = release(
        s,
        ffd_mask,
        ffu_mask,
        src_mask,
        dvu_mask,
        mix_en,
        ipc_mask,
        opc_mask,
        true,
        Ghost(s0),
        Ghost(d3),
    );
    assert(d4 =~= spec_start_ops(*dma, ffd_mask, ffu_mask, src_mask, dvu_mask, mix_en, ipc_mask, opc_mask));
}

/// The accesses of [`start_path`], given the DMACR value it read.
pub open spec fn spec_start_path_ops(
    dma: ScuxDma,
    ffd_mask: u8,
    ffu_mask: u8,
    src_mask: u8,
    dvu_mask: u8,
    mix_en: bool,
    ipc_mask: u8,
    opc_mask: u8,
    cur: u32,
) -> Seq<Access> {
    seq![
        rd(cim_at(DMACR_CIM_OFF), cur),
        wr(cim_at(DMACR_CIM_OFF), cur | spec_dmacr_bits(ffd_mask, ffu_mask)),
    ] + spec_dma_start_ops(ffd_mask, dma.ffd_chans(), 4) + spec_dma_start_ops(
        ffu_mask,
        dma.ffu_chans(),
        4,
    ) + spec_release_ops(
        ffd_mask,
        ffu_mask,
        src_mask,
        dvu_mask,
        mix_en,
        ipc_mask,
        opc_mask,
        Seq::empty(),
    )
}

/// Start further blocks while others run: as [`start`], but DMACR gains the
/// new bits by read-modify-write (running channels stay enabled) and the
/// routing registers are left alone.
pub fn start_path(
    dma: &ScuxDma,
    s: &mut Shadow,
    ffd_mask: u8,
    ffu_mask: u8,
    src_mask: u8,
    dvu_mask: u8,
    mix_en: bool,
    ipc_mask: u8,
    opc_mask: u8,
)
    requires
        dma.wf(),
    ensures
        performed(
            *old(s),
            *final(s),
            spec_start_path_ops(
                *dma,
                ffd_mask,
                ffu_mask,
                src_mask,
                dvu_mask,
                mix_en,
                ipc_mask,
                opc_mask,
                spec_read(old(s).mem(), cim_at(DMACR_CIM_OFF), 4),
            ),
        ),
{
    let ghost s0 = *s;
    proof {
        crate::mmio::lemma_performed_nothing(s0);
    }
    let (existing, Ghost(d0)) = r32(s, cim(DMACR_CIM_OFF), Ghost(s0), Ghost(Seq::empty()));
    let new_dmacr = existing | (ffd_mask as u32) | ((ffu_mask as u32) << 4);
    assert(new_dmacr == existing | spec_dmacr_bits(ffd_mask, ffu_mask)) by (bit_vector)
        requires
            new_dmacr == existing | (ffd_mask as u32) | ((ffu_mask as u32) << 4),
    ;
    let Ghost(d1) = w32(s, cim(DMACR_CIM_OFF), new_dmacr, Ghost(s0), Ghost(d0));
    let Ghost(d2) = dma_starts(s, ffd_mask, &dma.ffd, Ghost(s0), Ghost(d1));
    let Ghost(d3) = dma_starts(s, ffu_mask, &dma.ffu, Ghost(s0), Ghost(d2));
    let Ghost(d4) = release(
        s,
        ffd_mask,
        ffu_mask,
        src_mask,
        dvu_mask,
        mix_en,
        ipc_mask,
        opc_mask,
        false,
        Ghost(s0),
        Ghost(d3),
    );
    assert(d4 =~= spec_start_path_ops(
        *dma,
        ffd_mask,
        ffu_mask,
        src_mask,
        dvu_mask,
        mix_en,
        ipc_mask,
        opc_mask,
        existing,
    ));
}

/// Every access of `ops` lies below address `limit`.
pub open spec fn all_below(ops: Seq<Access>, limit: int) -> bool {
    forall|i: int| 0 <= i < ops.len() ==> (#[trigger] ops[i]).addr + ops[i].width <= limit
}

proof fn lemma_masked_below(
    mask: u8,
    base: usize,
    stride: usize,
    off: usize,
    val: u32,
    n: int,
    limit: int,
)
    requires
        0 <= n <= 4,
        base + 3 * stride + off + 4 <= limit,
    ensures
        all_below(spec_masked_writes(mask, base, stride, off, val, n), limit),
    decreases n,
{
    if n > 0 {
        lemma_masked_below(mask, base, stride, off, val, n - 1, limit);
        assert((n - 1) * stride <= 3 * stride) by (nonlinear_arith)
            requires
                0 <= n - 1 <= 3,
                stride >= 0,
        ;
    }
}

proof fn lemma_src_init_below(mask: u8, val: u32, n: int)
    requires
        0 <= n <= 4,
    ensures
        all_below(spec_src_init_ops(mask, val, false, n), SRC_BASE + 0x200),
    decreases n,
{
    if n > 0 {
        lemma_src_init_below(mask, val, n - 1);
    }
}

proof fn lemma_below_join(a: Seq<Access>, b: Seq<Access>, limit: int)
    requires
        all_below(a, limit),
        all_below(b, limit),
    ensures
        all_below(a + b, limit),
{
    assert forall|i: int| 0 <= i < (a + b).len() implies (#[trigger] (a + b)[i]).addr + (a
        + b)[i].width <= limit by {
        if i < a.len() {
            assert((a + b)[i] == a[i]);
        } else {
            assert((a + b)[i] == b[i - a.len()]);
        }
    }
}

/// The INIT-setting part of [`stop_path`], in reverse start order: OPC, IPC,
/// MIX, DVU, 2SRC (no reload), FFU, FFD.
pub open spec fn spec_hold_ops(
    ffd_mask: u8,
    ffu_mask: u8,
    src_mask: u8,
    dvu_mask: u8,
    mix_en: bool,
    ipc_mask: u8,
    opc_mask: u8,
) -> Seq<Access> {
    spec_masked_writes(opc_mask, OPC_BASE, OPC_STRIDE, OPCIR_OFF, INIT_SET, 4) + spec_masked_writes(
        ipc_mask,
        IPC_BASE,
        IPC_STRIDE,
        IPCIR_OFF,
        INIT_SET,
        4,
    ) + (if mix_en { seq![wr(mix_at(MIXIR_OFF), INIT_SET)] } else { Seq::empty() })
        + spec_masked_writes(dvu_mask, DVU_BASE, DVU_STRIDE, DVUIR_OFF, INIT_SET, 4)
        + spec_src_init_ops(src_mask, INIT_SET, false, 4) + spec_masked_writes(
        ffu_mask,
        FFU_BASE,
        FFU_STRIDE,
        FFUIR_OFF,
        INIT_SET,
        4,
    ) + spec_masked_writes(ffd_mask, FFD_BASE, FFD_STRIDE, FFDIR_OFF, INIT_SET, 4)
}

/// The accesses of [`stop_path`], given the DMACR value it read.
pub open spec fn spec_stop_path_ops(
    ffd_mask: u8,
    ffu_mask: u8,
    src_mask: u8,
    dvu_mask: u8,
    mix_en: bool,
    ipc_mask: u8,
    opc_mask: u8,
    cur: u32,
) -> Seq<Access> {
    spec_hold_ops(ffd_mask, ffu_mask, src_mask, dvu_mask, mix_en, ipc_mask, opc_mask) + seq![
        rd(cim_at(DMACR_CIM_OFF), cur),
        wr(cim_at(DMACR_CIM_OFF), cur & !spec_dmacr_bits(ffd_mask, ffu_mask)),
    ]
}

fn hold_paths(
    s: &mut Shadow,
    ffd_mask: u8,
    ffu_mask: u8,
    src_mask: u8,
    dvu_mask: u8,
    mix_en: bool,
    ipc_mask: u8,
    opc_mask: u8,
    Ghost(s0): Ghost<Shadow>,
) -> (r: Ghost<Seq<Access>>)
    requires
        performed(s0, *old(s), Seq::empty()),
    ensures
        r@ == spec_hold_ops(ffd_mask, ffu_mask, src_mask, dvu_mask, mix_en, ipc_mask, opc_mask),
        performed(s0, *final(s), r@),
{
    let Ghost(d1) = masked_writes(
        s,
        opc_mask,
        OPC_BASE,
        OPC_STRIDE,
        OPCIR_OFF,
        INIT_SET,
        Ghost(s0),
        Ghost(Seq::empty()),
    );
    let Ghost(d2) = masked_writes(s, ipc_mask, IPC_BASE, IPC_STRIDE, IPCIR_OFF, INIT_SET, Ghost(s0), Ghost(d1));
    let ghost mut d3 = d2;
    if mix_en {
        let Ghost(e) = w32(s, mix(MIXIR_OFF), INIT_SET, Ghost(s0), Ghost(d2));
        proof {
            d3 = e;
        }
    }
    assert(d3 =~= d2 + (if mix_en { seq![wr(mix_at(MIXIR_OFF), INIT_SET)] } else { Seq::empty() }));
    let Ghost(d4) = masked_writes(s, dvu_mask, DVU_BASE, DVU_STRIDE, DVUIR_OFF, INIT_SET, Ghost(s0), Ghost(d3));
    let Ghost(d5) = src_inits(s, src_mask, INIT_SET, false, Ghost(s0), Ghost(d4));
    let Ghost(d6) = masked_writes(s, ffu_mask, FFU_BASE, FFU_STRIDE, FFUIR_OFF, INIT_SET, Ghost(s0), Ghost(d5));
    let Ghost(d7) = masked_writes(s, ffd_mask, FFD_BASE, FFD_STRIDE, FFDIR_OFF, INIT_SET, Ghost(s0), Ghost(d6));
    assert(d7 =~= spec_hold_ops(ffd_mask, ffu_mask, src_mask, dvu_mask, mix_en, ipc_mask, opc_mask));
    Ghost(d7)
}

/// Stop some blocks while others run: set INIT in reverse start order (OPC,
/// IPC, MIX, DVU, 2SRC, FFU, FFD), then clear only their DMA request bits in
/// DMACR by read-modify-write.
pub fn stop_path(
    s: &mut Shadow,
    ffd_mask: u8,
    ffu_mask: u8,
    src_mask: u8,
    dvu_mask: u8,
    mix_en: bool,
    ipc_mask: u8,
    opc_mask: u8,
)
    ensures
        performed(
            *old(s),
            *final(s),
            spec_stop_path_ops(
                ffd_mask,
                ffu_mask,
                src_mask,
                dvu_mask,
                mix_en,
                ipc_mask,
                opc_mask,
                spec_read(old(s).mem(), cim_at(DMACR_CIM_OFF), 4),
            ),
        ),
{
    let ghost s0 = *s;
    proof {
        crate::mmio::lemma_performed_nothing(s0);
    }
    let Ghost(d1) = hold_paths(
        s,
        ffd_mask,
        ffu_mask,
        src_mask,
        dvu_mask,
        mix_en,
        ipc_mask,
        opc_mask,
        Ghost(s0),
    );
    let dmacr_addr = cim(DMACR_CIM_OFF);
    proof {
        let lim = CIM_BASE + DMACR_CIM_OFF;
        lemma_masked_below(opc_mask, OPC_BASE, OPC_STRIDE, OPCIR_OFF, INIT_SET, 4, lim);
        lemma_masked_below(ipc_mask, IPC_BASE, IPC_STRIDE, IPCIR_OFF, INIT_SET, 4, lim);
        lemma_masked_below(dvu_mask, DVU_BASE, DVU_STRIDE, DVUIR_OFF, INIT_SET, 4, lim);
        lemma_masked_below(ffu_mask, FFU_BASE, FFU_STRIDE, FFUIR_OFF, INIT_SET, 4, lim);
        lemma_masked_below(ffd_mask, FFD_BASE, FFD_STRIDE, FFDIR_OFF, INIT_SET, 4, lim);
        lemma_src_init_below(src_mask, INIT_SET, 4);
        let m: Seq<Access> = if mix_en { seq![wr(mix_at(MIXIR_OFF), INIT_SET)] } else { Seq::empty() };
        assert(all_below(m, lim));
        assert(all_below(spec_src_init_ops(src_mask, INIT_SET, false, 4), lim));
        let a = spec_masked_writes(opc_mask, OPC_BASE, OPC_STRIDE, OPCIR_OFF, INIT_SET, 4);
        let b = spec_masked_writes(ipc_mask, IPC_BASE, IPC_STRIDE, IPCIR_OFF, INIT_SET, 4);
        let c = spec_masked_writes(dvu_mask, DVU_BASE, DVU_STRIDE, DVUIR_OFF, INIT_SET, 4);
        let e = spec_src_init_ops(src_mask, INIT_SET, false, 4);
        let f = spec_masked_writes(ffu_mask, FFU_BASE, FFU_STRIDE, FFUIR_OFF, INIT_SET, 4);
        let g = spec_masked_writes(ffd_mask, FFD_BASE, FFD_STRIDE, FFDIR_OFF, INIT_SET, 4);
        lemma_below_join(a, b, lim);
        lemma_below_join(a + b, m, lim);
        lemma_below_join(a + b + m, c, lim);
        lemma_below_join(a + b + m + c, e, lim);
        lemma_below_join(a + b + m + c + e, f, lim);
        lemma_below_join(a + b + m + c + e + f, g, lim);
        assert(untouched(d1, dmacr_addr, 4));
        crate::mmio::lemma_replay_keeps_others(s0.mem(), dmacr_addr, 4, d1);
    }
    let (existing, Ghost(d2)) = r32(s, dmacr_addr, Ghost(s0), Ghost(d1));
    let clear_mask = (ffd_mask as u32) | ((ffu_mask as u32) << 4);
    let Ghost(d3) = w32(s, dmacr_addr, existing & !clear_mask, Ghost(s0), Ghost(d2));
    assert(d3 =~= spec_stop_path_ops(
        ffd_mask,
        ffu_mask,
        src_mask,
        dvu_mask,
        mix_en,
        ipc_mask,
        opc_mask,
        existing,
    ));
}

/// For blocks `0..n`, a write of `val` to the first bank's register, then
/// one to the second bank's.
pub open spec fn spec_pair_writes(
    base1: usize,
    stride1: usize,
    off1: usize,
    base2: usize,
    stride2: usize,
    off2: usize,
    val: u32,
    n: int,
) -> Seq<Access>
    decreases n,
{
    if n <= 0 {
        Seq::empty()
    } else {
        spec_pair_writes(base1, stride1, off1, base2, stride2, off2, val, n - 1) + seq![
            wr((base1 + (n - 1) * stride1 + off1) as usize, val),
            wr((base2 + (n - 1) * stride2 + off2) as usize, val),
        ]
    }
}

fn pair_writes(
    s: &mut Shadow,
    base1: usize,
    stride1: usize,
    off1: usize,
    base2: usize,
    stride2: usize,
    off2: usize,
    val: u32,
    Ghost(s0): Ghost<Shadow>,
    Ghost(done): Ghost<Seq<Access>>,
) -> (r: Ghost<Seq<Access>>)
    requires
        base1 + 3 * stride1 + off1 <= 0xFFFF_0000,
        base2 + 3 * stride2 + off2 <= 0xFFFF_0000,
        performed(s0, *old(s), done),
    ensures
        r@ == done + spec_pair_writes(base1, stride1, off1, base2, stride2, off2, val, 4),
        performed(s0, *final(s), r@),
{
    let ghost mut d = done;
    let mut ch: usize = 0;
    assert(d =~= done + spec_pair_writes(base1, stride1, off1, base2, stride2, off2, val, 0));
    while ch < 4
        invariant
            ch <= 4,
            base1 + 3 * stride1 + off1 <= 0xFFFF_0000,
            base2 + 3 * stride2 + off2 <= 0xFFFF_0000,
            performed(s0, *s, d),
            d == done + spec_pair_writes(base1, stride1, off1, base2, stride2, off2, val, ch as int),
        decreases 4 - ch,
    {
        assert(ch * stride1 <= 3 * stride1 && ch * stride2 <= 3 * stride2) by (nonlinear_arith)
            requires
                ch < 4,
        ;
        let Ghost(d2) = w32(s, base1 + ch * stride1 + off1, val, Ghost(s0), Ghost(d));
        let Ghost(d3) = w32(s, base2 + ch * stride2 + off2, val, Ghost(s0), Ghost(d2));
        proof {
            assert(d3 =~= done + spec_pair_writes(
                base1,
                stride1,
                off1,
                base2,
                stride2,
                off2,
                val,
                ch + 1,
            ));
            d = d3;
        }
        ch += 1;
    }
    Ghost(d)
}

/// The accesses of [`stop`].
pub open spec fn spec_stop_ops() -> Seq<Access> {
    spec_pair_writes(OPC_BASE, OPC_STRIDE, OPCIR_OFF, IPC_BASE, IPC_STRIDE, IPCIR_OFF, INIT_SET, 4)
        + seq![wr(mix_at(MIXIR_OFF), INIT_SET)] + spec_masked_writes(
        0xF,
        DVU_BASE,
        DVU_STRIDE,
        DVUIR_OFF,
        INIT_SET,
        4,
    ) + spec_src_init_ops(0xF, INIT_SET, false, 4) + spec_pair_writes(
        FFU_BASE,
        FFU_STRIDE,
        FFUIR_OFF,
        FFD_BASE,
        FFD_STRIDE,
        FFDIR_OFF,
        1,
        4,
    ) + seq![wr(cim_at(DMACR_CIM_OFF), 0)]
}

/// Stop every path: set INIT on OPC and IPC (channel by channel), MIX, every
/// DVU, every 2SRC path, FFU and FFD (channel by channel), then disable all
/// DMA requests.
pub fn stop(s: &mut Shadow)
    ensures
        performed(*old(s), *final(s), spec_stop_ops()),
{
    let ghost s0 = *s;
    proof {
        crate::mmio::lemma_performed_nothing(s0);
    }
    let Ghost(d1) = pair_writes(
        s,
        OPC_BASE,
        OPC_STRIDE,
        OPCIR_OFF,
        IPC_BASE,
        IPC_STRIDE,
        IPCIR_OFF,
        INIT_SET,
        Ghost(s0),
        Ghost(Seq::empty()),
    );
    let Ghost(d2) = w32(s, mix(MIXIR_OFF), INIT_SET, Ghost(s0), Ghost(d1));
    let Ghost(d3) = masked_writes(s, 0xF, DVU_BASE, DVU_STRIDE, DVUIR_OFF, INIT_SET, Ghost(s0), Ghost(d2));
    let Ghost(d4) = src_inits(s, 0xF, INIT_SET, false, Ghost(s0), Ghost(d3));
    let Ghost(d5) = pair_writes(
        s,
        FFU_BASE,
        FFU_STRIDE,
        FFUIR_OFF,
        FFD_BASE,
        FFD_STRIDE,
        FFDIR_OFF,
        1,
        Ghost(s0),
        Ghost(d4),
    );
    let Ghost(d6) = w32(s, cim(DMACR_CIM_OFF), 0, Ghost(s0), Ghost(d5));
    assert(d6 =~= spec_stop_ops());
}

} // verus!
