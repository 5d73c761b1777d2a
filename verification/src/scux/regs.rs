//! SCUX register map: block base addresses, per-channel register addresses,
//! bit-field constants, and the helpers that derive register values.
use crate::dmac::{
    CHCFG_AM_BURST, CHCFG_DAD, CHCFG_DDS_32BIT, CHCFG_DEM, CHCFG_DMS, CHCFG_HIEN, CHCFG_LVL,
    CHCFG_REQD, CHCFG_SAD, CHCFG_SDS_32BIT,
};
use vstd::prelude::*;

verus! {

pub const SCUX_BASE: usize = 0xE820_8000;

// IPC block (x4, stride 0x100).
pub const IPC_BASE: usize = 0xE820_8000;
pub const IPC_STRIDE: usize = 0x100;
/// Initialisation register (bit 0 = INIT).
pub const IPCIR_OFF: usize = 0x00;
/// Pass-select register.
pub const IPSLR_OFF: usize = 0x04;

// OPC block (x4, stride 0x100).
pub const OPC_BASE: usize = 0xE820_8400;
pub const OPC_STRIDE: usize = 0x100;
pub const OPCIR_OFF: usize = 0x00;
pub const OPSLR_OFF: usize = 0x04;

// FFD block (x4, stride 0x100).
pub const FFD_BASE: usize = 0xE820_8800;
pub const FFD_STRIDE: usize = 0x100;
pub const FFDIR_OFF: usize = 0x00;
pub const FDAIR_OFF: usize = 0x04;
pub const DRQSR_OFF: usize = 0x08;
pub const FFDPR_OFF: usize = 0x0C;
pub const FFDBR_OFF: usize = 0x10;
pub const DEVMR_OFF: usize = 0x14;
pub const DEVCR_OFF: usize = 0x1C;

// FFU block (x4, stride 0x100).
pub const FFU_BASE: usize = 0xE820_8C00;
pub const FFU_STRIDE: usize = 0x100;
pub const FFUIR_OFF: usize = 0x00;
pub const FUAIR_OFF: usize = 0x04;
pub const URQSR_OFF: usize = 0x08;
pub const FFUPR_OFF: usize = 0x0C;
pub const UEVMR_OFF: usize = 0x10;
pub const UEVCR_OFF: usize = 0x18;

// 2SRC block: two units, each with two paths ("pairs") 0x34 apart.
pub const SRC_BASE: usize = 0xE820_9000;
pub const SRC_UNIT_STRIDE: usize = 0x100;
pub const SRC_PAIR_STRIDE: usize = 0x34;
pub const SRCIR_OFF: usize = 0x00;
pub const SADIR_OFF: usize = 0x04;
pub const SRCBR_OFF: usize = 0x08;
pub const IFSCR_OFF: usize = 0x0C;
pub const IFSVR_OFF: usize = 0x10;
pub const SRCCR_OFF: usize = 0x14;
pub const MNFSR_OFF: usize = 0x18;
pub const BFSSR_OFF: usize = 0x1C;
pub const SEVMR_OFF: usize = 0x28;
pub const SEVCR_OFF: usize = 0x30;
/// The unit-level input-rate reload register, after both pairs' banks.
pub const SRCIRR_UNIT_OFF: usize = 0x68;

// DVU block (x4, stride 0x100).
pub const DVU_BASE: usize = 0xE820_9200;
pub const DVU_STRIDE: usize = 0x100;
pub const DVUIR_OFF: usize = 0x00;
pub const VADIR_OFF: usize = 0x04;
pub const DVUBR_OFF: usize = 0x08;
pub const DVUCR_OFF: usize = 0x0C;
pub const ZCMCR_OFF: usize = 0x10;
pub const VRCTR_OFF: usize = 0x14;
pub const VRPDR_OFF: usize = 0x18;
pub const VRDBR_OFF: usize = 0x1C;
pub const VRWTR_OFF: usize = 0x20;
/// VOL0R; VOL1R–VOL7R follow 4 bytes apart.
pub const VOL0R_OFF: usize = 0x24;
pub const DVUER_OFF: usize = 0x44;
pub const VEVMR_OFF: usize = 0x4C;
pub const VEVCR_OFF: usize = 0x54;

// MIX block.
pub const MIX_BASE: usize = 0xE820_9600;
pub const MIXIR_OFF: usize = 0x00;
pub const MADIR_OFF: usize = 0x04;
pub const MIXBR_OFF: usize = 0x08;
pub const MIXMR_OFF: usize = 0x0C;
pub const MVPDR_OFF: usize = 0x10;
pub const MDB0R_OFF: usize = 0x14;
pub const MDB1R_OFF: usize = 0x18;
pub const MDB2R_OFF: usize = 0x1C;
pub const MDB3R_OFF: usize = 0x20;
pub const MDBER_OFF: usize = 0x24;

// CIM block.
pub const CIM_BASE: usize = 0xE820_9700;
pub const SWRSR_CIM_OFF: usize = 0x00;
pub const DMACR_CIM_OFF: usize = 0x04;
pub const DMATD0_CIM_OFF: usize = 0x08;
pub const DMATD1_CIM_OFF: usize = 0x0C;
pub const DMATD2_CIM_OFF: usize = 0x10;
pub const DMATD3_CIM_OFF: usize = 0x14;
pub const DMATU0_CIM_OFF: usize = 0x18;
pub const DMATU1_CIM_OFF: usize = 0x1C;
pub const DMATU2_CIM_OFF: usize = 0x20;
pub const DMATU3_CIM_OFF: usize = 0x24;
pub const SSIRSEL_CIM_OFF: usize = 0x38;
pub const FDTSEL0_CIM_OFF: usize = 0x3C;
pub const FDTSEL1_CIM_OFF: usize = 0x40;
pub const FDTSEL2_CIM_OFF: usize = 0x44;
pub const FDTSEL3_CIM_OFF: usize = 0x48;
pub const FUTSEL0_CIM_OFF: usize = 0x4C;
pub const FUTSEL1_CIM_OFF: usize = 0x50;
pub const FUTSEL2_CIM_OFF: usize = 0x54;
pub const FUTSEL3_CIM_OFF: usize = 0x58;
pub const SSIPMD_CIM_OFF: usize = 0x5C;
pub const SSICTRL_CIM_OFF: usize = 0x60;
pub const SRCRSEL0_CIM_OFF: usize = 0x64;
pub const SRCRSEL1_CIM_OFF: usize = 0x68;
pub const SRCRSEL2_CIM_OFF: usize = 0x6C;
pub const SRCRSEL3_CIM_OFF: usize = 0x70;
pub const MIXRSEL_CIM_OFF: usize = 0x74;

/// DMARS selector: CPU -> SCUX input FIFO 0.
pub const DMARS_SCUTXI0: u32 = 0x0101;
/// DMARS selector: CPU -> SCUX input FIFO 1.
pub const DMARS_SCUTXI1: u32 = 0x0105;
/// DMARS selector: CPU -> SCUX input FIFO 2.
pub const DMARS_SCUTXI2: u32 = 0x0109;
/// DMARS selector: CPU -> SCUX input FIFO 3.
pub const DMARS_SCUTXI3: u32 = 0x010D;
/// DMARS selector: SCUX output FIFO 0 -> CPU.
pub const DMARS_SCURXI0: u32 = 0x0102;
/// DMARS selector: SCUX output FIFO 1 -> CPU.
pub const DMARS_SCURXI1: u32 = 0x0106;
/// DMARS selector: SCUX output FIFO 2 -> CPU.
pub const DMARS_SCURXI2: u32 = 0x010A;
/// DMARS selector: SCUX output FIFO 3 -> CPU.
pub const DMARS_SCURXI3: u32 = 0x010E;

/// Link-descriptor header word: LDEN, NXA and valid set.
pub const DESC_HEADER: u32 = 0b1101;

/// INTIFS for 44.1 kHz -> 44.1 kHz (unity, 2^22).
pub const INTIFS_44100_TO_44100: u32 = 0x0040_0000;
/// INTIFS for 44.1 kHz -> 48 kHz.
pub const INTIFS_44100_TO_48000: u32 = 0x003A_CCCC;
/// INTIFS for 48 kHz -> 44.1 kHz.
pub const INTIFS_48000_TO_44100: u32 = 0x0045_A8EC;
/// INTIFS for 48 kHz -> 48 kHz (unity).
pub const INTIFS_48000_TO_48000: u32 = 0x0040_0000;
/// INTIFS for 88.2 kHz -> 44.1 kHz (exactly 2:1).
pub const INTIFS_88200_TO_44100: u32 = 0x0080_0000;
/// INTIFS for 96 kHz -> 44.1 kHz.
pub const INTIFS_96000_TO_44100: u32 = 0x008B_51D9;
/// INTIFS for 96 kHz -> 48 kHz (exactly 2:1).
pub const INTIFS_96000_TO_48000: u32 = 0x0080_0000;

/// SRCCR must-be-1 bits (16, 8 and 4).
pub const SRCCR_MBZ1: u32 = 0x0001_0110;
/// SRCCR bit 0: sync mode.
pub const SRCCR_SYNC: u32 = 1;
/// SWRSR: reset asserted.
pub const SWRSR_RESET: u32 = 0;
/// SWRSR: normal operation.
pub const SWRSR_RUN: u32 = 1;
/// INIT bit of every xxxIR register: 1 holds the block in initialisation.
pub const INIT_SET: u32 = 1;
pub const INIT_CLR: u32 = 0;
/// FFDBR bit 0: boot the FIFO.
pub const FFDBR_BOOT: u32 = 1;
/// FFDPR bit 0: enable the async path CIM -> FFD -> IPC.
pub const FFDPR_PASS_ASYNC: u32 = 1;
/// FFUPR bit 0: enable the async path OPC -> FFU -> CIM.
pub const FFUPR_PASS_ASYNC: u32 = 1;
/// SRCBR bit 0: bypass the rate converter.
pub const SRCBR_BYPASS: u32 = 1;
/// IFSCR bit 0: use INTIFS (async mode).
pub const IFSCR_INTIFSEN: u32 = 1;
/// DVUBR bit 0: bypass the DVU.
pub const DVUBR_BYPASS: u32 = 1;
/// DVUCR bit 4: volume ramp mode.
pub const DVUCR_VRMD: u32 = 0x10;
/// DVUCR bit 8: direct digital volume mode.
pub const DVUCR_VVMD: u32 = 0x100;
/// VRCTR bit 0: per-channel ramp enable (bit N = channel N).
pub const VRCTR_VREN: u32 = 1;
/// ZCMCR bit 0: per-channel zero-cross mute enable.
pub const ZCMCR_ZCEN: u32 = 1;
/// DVUER bit 0: activate the DVU volume settings.
pub const DVUER_DVUEN: u32 = 1;
/// MIXBR bit 0: bypass the mixer.
pub const MIXBR_BYPASS: u32 = 1;
/// MDBER bit 0: enable the per-source gain coefficients.
pub const MDBER_MIXDBEN: u32 = 1;
/// FDTSEL/FUTSEL bit 8: enable divided clock output.
pub const FDTSEL_DIVEN: u32 = 0x100;
/// FDTSEL/FUTSEL SCKSEL value for SSIF0 WS.
pub const FDTSEL_SCKSEL_SSIF0_WS: u32 = 8;
/// SSICTRL bit 14: SCUX drives SSIF0 TX directly.
pub const SSICTRL_SSI0TX: u32 = 0x4000;

/// Address of register `off` of IPC channel `ch`.
pub open spec fn ipc_at(ch: int, off: usize) -> usize {
    (IPC_BASE + ch * IPC_STRIDE + off) as usize
}

/// Address of register `off` of OPC channel `ch`.
pub open spec fn opc_at(ch: int, off: usize) -> usize {
    (OPC_BASE + ch * OPC_STRIDE + off) as usize
}

/// Address of register `off` of FFD channel `ch`.
pub open spec fn ffd_at(ch: int, off: usize) -> usize {
    (FFD_BASE + ch * FFD_STRIDE + off) as usize
}

/// Address of register `off` of FFU channel `ch`.
pub open spec fn ffu_at(ch: int, off: usize) -> usize {
    (FFU_BASE + ch * FFU_STRIDE + off) as usize
}

/// Address of register `off` of 2SRC path (`unit`, `pair`).
pub open spec fn src_at(unit: int, pair: int, off: usize) -> usize {
    (SRC_BASE + unit * SRC_UNIT_STRIDE + pair * SRC_PAIR_STRIDE + off) as usize
}

/// Address of the SRCIRR register of 2SRC unit `unit`.
pub open spec fn srcirr_at(unit: int) -> usize {
    (SRC_BASE + unit * SRC_UNIT_STRIDE + SRCIRR_UNIT_OFF) as usize
}

/// Address of register `off` of DVU channel `ch`.
pub open spec fn dvu_at(ch: int, off: usize) -> usize {
    (DVU_BASE + ch * DVU_STRIDE + off) as usize
}

/// Address of MIX register `off`.
pub open spec fn mix_at(off: usize) -> usize {
    (MIX_BASE + off) as usize
}

/// Address of CIM register `off`.
pub open spec fn cim_at(off: usize) -> usize {
    (CIM_BASE + off) as usize
}

/// Address of register `off` of IPC channel `ch`.
pub fn ipc(ch: u8, off: usize) -> (a: usize)
    requires
        IPC_BASE + ch * IPC_STRIDE + off <= usize::MAX,
    ensures
        a == IPC_BASE + ch * IPC_STRIDE + off,
{
    IPC_BASE + ch as usize * IPC_STRIDE + off
}

/// Address of register `off` of OPC channel `ch`.
pub fn opc(ch: u8, off: usize) -> (a: usize)
    requires
        OPC_BASE + ch * OPC_STRIDE + off <= usize::MAX,
    ensures
        a == OPC_BASE + ch * OPC_STRIDE + off,
{
    OPC_BASE + ch as usize * OPC_STRIDE + off
}

/// Address of register `off` of FFD channel `ch`.
pub fn ffd(ch: u8, off: usize) -> (a: usize)
    requires
        FFD_BASE + ch * FFD_STRIDE + off <= usize::MAX,
    ensures
        a == FFD_BASE + ch * FFD_STRIDE + off,
{
    FFD_BASE + ch as usize * FFD_STRIDE + off
}

/// Address of register `off` of FFU channel `ch`.
pub fn ffu(ch: u8, off: usize) -> (a: usize)
    requires
        FFU_BASE + ch * FFU_STRIDE + off <= usize::MAX,
    ensures
        a == FFU_BASE + ch * FFU_STRIDE + off,
{
    FFU_BASE + ch as usize * FFU_STRIDE + off
}

/// Address of register `off` of 2SRC path (`unit`, `pair`).
pub fn src(unit: u8, pair: u8, off: usize) -> (a: usize)
    requires
        SRC_BASE + unit * SRC_UNIT_STRIDE + pair * SRC_PAIR_STRIDE + off <= usize::MAX,
    ensures
        a == SRC_BASE + unit * SRC_UNIT_STRIDE + pair * SRC_PAIR_STRIDE + off,
{
    SRC_BASE + unit as usize * SRC_UNIT_STRIDE + pair as usize * SRC_PAIR_STRIDE + off
}

/// Address of the unit-level SRCIRR register of 2SRC unit `unit`.
pub fn srcirr(unit: u8) -> (a: usize)
    ensures
        a == SRC_BASE + unit * SRC_UNIT_STRIDE + SRCIRR_UNIT_OFF,
{
    SRC_BASE + unit as usize * SRC_UNIT_STRIDE + SRCIRR_UNIT_OFF
}

/// Address of register `off` of DVU channel `ch`.
pub fn dvu(ch: u8, off: usize) -> (a: usize)
    requires
        DVU_BASE + ch * DVU_STRIDE + off <= usize::MAX,
    ensures
        a == DVU_BASE + ch * DVU_STRIDE + off,
{
    DVU_BASE + ch as usize * DVU_STRIDE + off
}

/// Offset of the volume register of audio channel `audio_ch` in a DVU.
pub fn vol_off(audio_ch: u8) -> (o: usize)
    ensures
        o == VOL0R_OFF + audio_ch * 4,
{
    VOL0R_OFF + audio_ch as usize * 4
}

/// Address of MIX register `off`.
pub fn mix(off: usize) -> (a: usize)
    requires
        MIX_BASE + off <= usize::MAX,
    ensures
        a == MIX_BASE + off,
{
    MIX_BASE + off
}

/// Address of CIM register `off`.
pub fn cim(off: usize) -> (a: usize)
    requires
        CIM_BASE + off <= usize::MAX,
    ensures
        a == CIM_BASE + off,
{
    CIM_BASE + off
}

/// CHCFG of an FFD channel's DMA (SRAM -> SCUX FIFO): link mode, end
/// interrupt masked, fixed destination, 32-bit both sides, burst,
/// high-level, destination-requested, on DMA channel `dma_ch & 7`
/// (`0x8122_2268 | ch`).
pub open spec fn spec_ffd_chcfg(dma_ch: u8) -> u32 {
    CHCFG_DMS | CHCFG_DEM | CHCFG_DAD | CHCFG_DDS_32BIT | CHCFG_SDS_32BIT | CHCFG_AM_BURST
        | CHCFG_HIEN | CHCFG_REQD | CHCFG_LVL | (dma_ch as u32 & 7)
}

/// CHCFG of an FFD channel's DMA.
pub fn ffd_chcfg(dma_ch: u8) -> (c: u32)
    ensures
        c == spec_ffd_chcfg(dma_ch),
        c == 0x8122_2268 | (dma_ch as u32 & 7),
{
    let c = CHCFG_DMS | CHCFG_DEM | CHCFG_DAD | CHCFG_DDS_32BIT | CHCFG_SDS_32BIT
        | CHCFG_AM_BURST | CHCFG_HIEN | CHCFG_REQD | CHCFG_LVL | (dma_ch as u32 & 7);
    assert(c == 0x8122_2268 | (dma_ch as u32 & 7)) by (bit_vector)
        requires
            c == 0x8000_0000u32 | 0x0100_0000u32 | 0x0020_0000u32 | 0x0002_0000u32
                | 0x0000_2000u32 | 0x0000_0200u32 | 0x0000_0020u32 | 0x0000_0008u32
                | 0x0000_0040u32 | (dma_ch as u32 & 7);
    c
}

/// CHCFG of an FFU channel's DMA (SCUX FIFO -> SRAM): link mode, end
/// interrupt masked, fixed source, 32-bit both sides, burst, high-level,
/// source-requested, on DMA channel `dma_ch & 7`.
pub open spec fn spec_ffu_chcfg(dma_ch: u8) -> u32 {
    CHCFG_DMS | CHCFG_DEM | CHCFG_SAD | CHCFG_DDS_32BIT | CHCFG_SDS_32BIT | CHCFG_AM_BURST
        | CHCFG_HIEN | CHCFG_LVL | (dma_ch as u32 & 7)
}

/// CHCFG of an FFU channel's DMA.
pub fn ffu_chcfg(dma_ch: u8) -> (c: u32)
    ensures
        c == spec_ffu_chcfg(dma_ch),
        c == 0x8112_2260 | (dma_ch as u32 & 7),
{
    let c = CHCFG_DMS | CHCFG_DEM | CHCFG_SAD | CHCFG_DDS_32BIT | CHCFG_SDS_32BIT
        | CHCFG_AM_BURST | CHCFG_HIEN | CHCFG_LVL | (dma_ch as u32 & 7);
    assert(c == 0x8112_2260 | (dma_ch as u32 & 7)) by (bit_vector)
        requires
            c == 0x8000_0000u32 | 0x0100_0000u32 | 0x0010_0000u32 | 0x0002_0000u32
                | 0x0000_2000u32 | 0x0000_0200u32 | 0x0000_0020u32 | 0x0000_0040u32 | (
            dma_ch as u32 & 7);
    c
}

/// The INTIFS ratio `2^22 * fin / fout` (Q22), cut to 32 bits; 0 when
/// `fout_hz` is 0.
pub open spec fn spec_intifs(fin_hz: u32, fout_hz: u32) -> u32 {
    if fout_hz == 0 {
        0
    } else {
        ((fin_hz * 0x40_0000 / fout_hz as int) % 0x1_0000_0000) as u32
    }
}

/// An integer rate ratio is exact: converting `k * fout_hz` down to
/// `fout_hz` gives `k` in Q22 (cut to 32 bits), unity giving `2^22`.
pub proof fn lemma_intifs_integer_ratio(fin_hz: u32, fout_hz: u32, k: nat)
    requires
        fout_hz > 0,
        fin_hz == k * fout_hz,
    ensures
        spec_intifs(fin_hz, fout_hz) == ((k * 0x40_0000) % 0x1_0000_0000) as u32,
{
    assert(fin_hz * 0x40_0000 == (k * 0x40_0000) * fout_hz) by (nonlinear_arith)
        requires
            fin_hz == k * fout_hz,
    ;
    vstd::arithmetic::div_mod::lemma_div_by_multiple((k * 0x40_0000) as int, fout_hz as int);
}

/// The INTIFS register value for input rate `fin_hz` and output rate
/// `fout_hz`: `2^22 * fin / fout` rounded down, cut to 32 bits; 0 when
/// `fout_hz` is 0.
pub fn intifs(fin_hz: u32, fout_hz: u32) -> (r: u32)
    ensures
        r == spec_intifs(fin_hz, fout_hz),
{
    if fout_hz == 0 {
        return 0;
    }
    let wide = (fin_hz as u64) << 22;
    assert(wide == fin_hz * 0x40_0000) by (bit_vector)
        requires
            wide == (fin_hz as u64) << 22,
    ;
    let q = wide / fout_hz as u64;
    assert(q as u32 == q % 0x1_0000_0000) by (bit_vector);
    q as u32
}

} // verus!
