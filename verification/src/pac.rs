//! Register fields, as the peripheral access crate lays them out.
//!
//! Each function takes the value of a register, has `stm32_metapac` read or overwrite one field of
//! it, and gives back plain bits. The bodies are not verified; the contracts repeat the shift and
//! the mask of the field in that crate.

use vstd::prelude::*;

use crate::bits::{field, flag, with_field, with_flag};
use stm32_metapac::octospi::{regs, vals};
use stm32_metapac::{octospim, rcc};

verus! {

/// `stm32_metapac::octospi::regs::Cr::set_en`: sets or clears bit 0 and keeps the other bits.
#[verifier::external_body]
pub(crate) fn cr_with_en(cr: u32, on: bool) -> (r: u32)
    ensures
        r == with_flag(cr, 0, on),
{
    let mut w = regs::Cr(cr);
    w.set_en(on);
    w.0
}

/// `stm32_metapac::octospi::regs::Cr::set_abort`: sets or clears bit 1 and keeps the other bits.
#[verifier::external_body]
pub(crate) fn cr_with_abort(cr: u32, on: bool) -> (r: u32)
    ensures
        r == with_flag(cr, 1, on),
{
    let mut w = regs::Cr(cr);
    w.set_abort(on);
    w.0
}

/// `stm32_metapac::octospi::regs::Cr::set_dmaen`: sets or clears bit 2 and keeps the other bits.
#[verifier::external_body]
pub(crate) fn cr_with_dmaen(cr: u32, on: bool) -> (r: u32)
    ensures
        r == with_flag(cr, 2, on),
{
    let mut w = regs::Cr(cr);
    w.set_dmaen(on);
    w.0
}

/// `stm32_metapac::octospi::regs::Cr::set_tcen`: sets or clears bit 3 and keeps the other bits.
#[verifier::external_body]
pub(crate) fn cr_with_tcen(cr: u32, on: bool) -> (r: u32)
    ensures
        r == with_flag(cr, 3, on),
{
    let mut w = regs::Cr(cr);
    w.set_tcen(on);
    w.0
}

/// `stm32_metapac::octospi::regs::Cr::set_dmm`: sets or clears bit 6 and keeps the other bits.
#[verifier::external_body]
pub(crate) fn cr_with_dmm(cr: u32, on: bool) -> (r: u32)
    ensures
        r == with_flag(cr, 6, on),
{
    let mut w = regs::Cr(cr);
    w.set_dmm(on);
    w.0
}

/// `stm32_metapac::octospi::regs::Cr::set_fthres`, on the value that `vals::Threshold::from_bits`
/// gives: replaces bits 8 to 12 by the low bits of `bits` and keeps the others.
#[verifier::external_body]
pub(crate) fn cr_with_fthres(cr: u32, bits: u8) -> (r: u32)
    ensures
        r == with_field(cr, 8, 5, bits as u32),
{
    let mut w = regs::Cr(cr);
    w.set_fthres(vals::Threshold::from_bits(bits));
    w.0
}

/// `stm32_metapac::octospi::regs::Cr::set_fmode`, on the value that
/// `vals::FunctionalMode::from_bits` gives: replaces bits 28 to 29 by the low bits of `bits` and
/// keeps the others.
#[verifier::external_body]
pub(crate) fn cr_with_fmode(cr: u32, bits: u8) -> (r: u32)
    ensures
        r == with_field(cr, 28, 2, bits as u32),
{
    let mut w = regs::Cr(cr);
    w.set_fmode(vals::FunctionalMode::from_bits(bits));
    w.0
}

/// `stm32_metapac::octospi::regs::Dcr1::set_ckmode`: sets or clears bit 0 and keeps the other bits.
#[verifier::external_body]
pub(crate) fn dcr1_with_ckmode(dcr1: u32, on: bool) -> (r: u32)
    ensures
        r == with_flag(dcr1, 0, on),
{
    let mut w = regs::Dcr1(dcr1);
    w.set_ckmode(on);
    w.0
}

/// `stm32_metapac::octospi::regs::Dcr1::set_frck`: sets or clears bit 1 and keeps the other bits.
#[verifier::external_body]
pub(crate) fn dcr1_with_frck(dcr1: u32, on: bool) -> (r: u32)
    ensures
        r == with_flag(dcr1, 1, on),
{
    let mut w = regs::Dcr1(dcr1);
    w.set_frck(on);
    w.0
}

/// `stm32_metapac::octospi::regs::Dcr1::set_dlybyp`: sets or clears bit 3 and keeps the other bits.
#[verifier::external_body]
pub(crate) fn dcr1_with_dlybyp(dcr1: u32, on: bool) -> (r: u32)
    ensures
        r == with_flag(dcr1, 3, on),
{
    let mut w = regs::Dcr1(dcr1);
    w.set_dlybyp(on);
    w.0
}

/// `stm32_metapac::octospi::regs::Dcr1::set_csht`: replaces bits 8 to 13 by the low bits of `bits`
/// and keeps the others.
#[verifier::external_body]
pub(crate) fn dcr1_with_csht(dcr1: u32, bits: u8) -> (r: u32)
    ensures
        r == with_field(dcr1, 8, 6, bits as u32),
{
    let mut w = regs::Dcr1(dcr1);
    w.set_csht(bits);
    w.0
}

/// `stm32_metapac::octospi::regs::Dcr1::set_devsize`: replaces bits 16 to 20 by the low bits of
/// `bits` and keeps the others.
#[verifier::external_body]
pub(crate) fn dcr1_with_devsize(dcr1: u32, bits: u8) -> (r: u32)
    ensures
        r == with_field(dcr1, 16, 5, bits as u32),
{
    let mut w = regs::Dcr1(dcr1);
    w.set_devsize(bits);
    w.0
}

/// `stm32_metapac::octospi::regs::Dcr1::set_mtyp`, on the value that `vals::MemType::from_bits`
/// gives: replaces bits 24 to 26 by the low bits of `bits` and keeps the others.
#[verifier::external_body]
pub(crate) fn dcr1_with_mtyp(dcr1: u32, bits: u8) -> (r: u32)
    ensures
        r == with_field(dcr1, 24, 3, bits as u32),
{
    let mut w = regs::Dcr1(dcr1);
    w.set_mtyp(vals::MemType::from_bits(bits));
    w.0
}

/// `stm32_metapac::octospi::regs::Dcr2::set_prescaler`: replaces bits 0 to 7 by the low bits of
/// `bits` and keeps the others.
#[verifier::external_body]
pub(crate) fn dcr2_with_prescaler(dcr2: u32, bits: u8) -> (r: u32)
    ensures
        r == with_field(dcr2, 0, 8, bits as u32),
{
    let mut w = regs::Dcr2(dcr2);
    w.set_prescaler(bits);
    w.0
}

/// `stm32_metapac::octospi::regs::Dcr2::set_wrapsize`: replaces bits 16 to 18 by the low bits of
/// `bits` and keeps the others.
#[verifier::external_body]
pub(crate) fn dcr2_with_wrapsize(dcr2: u32, bits: u8) -> (r: u32)
    ensures
        r == with_field(dcr2, 16, 3, bits as u32),
{
    let mut w = regs::Dcr2(dcr2);
    w.set_wrapsize(bits);
    w.0
}

/// `stm32_metapac::octospi::regs::Dcr3::set_maxtran`: replaces bits 0 to 7 by the low bits of
/// `bits` and keeps the others.
#[verifier::external_body]
pub(crate) fn dcr3_with_maxtran(dcr3: u32, bits: u8) -> (r: u32)
    ensures
        r == with_field(dcr3, 0, 8, bits as u32),
{
    let mut w = regs::Dcr3(dcr3);
    w.set_maxtran(bits);
    w.0
}

/// `stm32_metapac::octospi::regs::Dcr3::set_csbound`: replaces bits 16 to 20 by the low bits of
/// `bits` and keeps the others.
#[verifier::external_body]
pub(crate) fn dcr3_with_csbound(dcr3: u32, bits: u8) -> (r: u32)
    ensures
        r == with_field(dcr3, 16, 5, bits as u32),
{
    let mut w = regs::Dcr3(dcr3);
    w.set_csbound(bits);
    w.0
}

/// `stm32_metapac::octospi::regs::Dcr4::set_refresh`: the field is the whole register.
#[verifier::external_body]
pub(crate) fn dcr4_with_refresh(dcr4: u32, bits: u32) -> (r: u32)
    ensures
        r == bits,
{
    let mut w = regs::Dcr4(dcr4);
    w.set_refresh(bits);
    w.0
}

/// `stm32_metapac::octospi::regs::Fcr::set_ctcf`: sets or clears bit 1 and keeps the other bits.
#[verifier::external_body]
pub(crate) fn fcr_with_ctcf(fcr: u32, on: bool) -> (r: u32)
    ensures
        r == with_flag(fcr, 1, on),
{
    let mut w = regs::Fcr(fcr);
    w.set_ctcf(on);
    w.0
}

/// `stm32_metapac::octospi::regs::Dlr::set_dl`: the field is the whole register.
#[verifier::external_body]
pub(crate) fn dlr_with_dl(dlr: u32, bits: u32) -> (r: u32)
    ensures
        r == bits,
{
    let mut w = regs::Dlr(dlr);
    w.set_dl(bits);
    w.0
}

/// `stm32_metapac::octospi::regs::Ar::set_address`: the field is the whole register.
#[verifier::external_body]
pub(crate) fn ar_with_address(ar: u32, bits: u32) -> (r: u32)
    ensures
        r == bits,
{
    let mut w = regs::Ar(ar);
    w.set_address(bits);
    w.0
}

/// `stm32_metapac::octospi::regs::Ir::set_instruction`: the field is the whole register.
#[verifier::external_body]
pub(crate) fn ir_with_instruction(ir: u32, bits: u32) -> (r: u32)
    ensures
        r == bits,
{
    let mut w = regs::Ir(ir);
    w.set_instruction(bits);
    w.0
}

/// `stm32_metapac::octospi::regs::Abr::set_alternate`: the field is the whole register.
#[verifier::external_body]
pub(crate) fn abr_with_alternate(abr: u32, bits: u32) -> (r: u32)
    ensures
        r == bits,
{
    let mut w = regs::Abr(abr);
    w.set_alternate(bits);
    w.0
}

/// `stm32_metapac::octospi::regs::Ccr::set_imode`, on the value that `vals::PhaseMode::from_bits`
/// gives: replaces bits 0 to 2 by the low bits of `bits` and keeps the others.
#[verifier::external_body]
pub(crate) fn ccr_with_imode(ccr: u32, bits: u8) -> (r: u32)
    ensures
        r == with_field(ccr, 0, 3, bits as u32),
{
    let mut w = regs::Ccr(ccr);
    w.set_imode(vals::PhaseMode::from_bits(bits));
    w.0
}

/// `stm32_metapac::octospi::regs::Ccr::set_idtr`: sets or clears bit 3 and keeps the other bits.
#[verifier::external_body]
pub(crate) fn ccr_with_idtr(ccr: u32, on: bool) -> (r: u32)
    ensures
        r == with_flag(ccr, 3, on),
{
    let mut w = regs::Ccr(ccr);
    w.set_idtr(on);
    w.0
}

/// `stm32_metapac::octospi::regs::Ccr::set_isize`, on the value that `vals::SizeInBits::from_bits`
/// gives: replaces bits 4 to 5 by the low bits of `bits` and keeps the others.
#[verifier::external_body]
pub(crate) fn ccr_with_isize(ccr: u32, bits: u8) -> (r: u32)
    ensures
        r == with_field(ccr, 4, 2, bits as u32),
{
    let mut w = regs::Ccr(ccr);
    w.set_isize(vals::SizeInBits::from_bits(bits));
    w.0
}

/// `stm32_metapac::octospi::regs::Ccr::set_admode`, on the value that `vals::PhaseMode::from_bits`
/// gives: replaces bits 8 to 10 by the low bits of `bits` and keeps the others.
#[verifier::external_body]
pub(crate) fn ccr_with_admode(ccr: u32, bits: u8) -> (r: u32)
    ensures
        r == with_field(ccr, 8, 3, bits as u32),
{
    let mut w = regs::Ccr(ccr);
    w.set_admode(vals::PhaseMode::from_bits(bits));
    w.0
}

/// `stm32_metapac::octospi::regs::Ccr::set_addtr`: sets or clears bit 11 and keeps the other bits.
#[verifier::external_body]
pub(crate) fn ccr_with_addtr(ccr: u32, on: bool) -> (r: u32)
    ensures
        r == with_flag(ccr, 11, on),
{
    let mut w = regs::Ccr(ccr);
    w.set_addtr(on);
    w.0
}

/// `stm32_metapac::octospi::regs::Ccr::set_adsize`, on the value that `vals::SizeInBits::from_bits`
/// gives: replaces bits 12 to 13 by the low bits of `bits` and keeps the others.
#[verifier::external_body]
pub(crate) fn ccr_with_adsize(ccr: u32, bits: u8) -> (r: u32)
    ensures
        r == with_field(ccr, 12, 2, bits as u32),
{
    let mut w = regs::Ccr(ccr);
    w.set_adsize(vals::SizeInBits::from_bits(bits));
    w.0
}

/// `stm32_metapac::octospi::regs::Ccr::set_abmode`, on the value that `vals::PhaseMode::from_bits`
/// gives: replaces bits 16 to 18 by the low bits of `bits` and keeps the others.
#[verifier::external_body]
pub(crate) fn ccr_with_abmode(ccr: u32, bits: u8) -> (r: u32)
    ensures
        r == with_field(ccr, 16, 3, bits as u32),
{
    let mut w = regs::Ccr(ccr);
    w.set_abmode(vals::PhaseMode::from_bits(bits));
    w.0
}

/// `stm32_metapac::octospi::regs::Ccr::set_abdtr`: sets or clears bit 19 and keeps the other bits.
#[verifier::external_body]
pub(crate) fn ccr_with_abdtr(ccr: u32, on: bool) -> (r: u32)
    ensures
        r == with_flag(ccr, 19, on),
{
    let mut w = regs::Ccr(ccr);
    w.set_abdtr(on);
    w.0
}

/// `stm32_metapac::octospi::regs::Ccr::set_absize`, on the value that `vals::SizeInBits::from_bits`
/// gives: replaces bits 20 to 21 by the low bits of `bits` and keeps the others.
#[verifier::external_body]
pub(crate) fn ccr_with_absize(ccr: u32, bits: u8) -> (r: u32)
    ensures
        r == with_field(ccr, 20, 2, bits as u32),
{
    let mut w = regs::Ccr(ccr);
    w.set_absize(vals::SizeInBits::from_bits(bits));
    w.0
}

/// `stm32_metapac::octospi::regs::Ccr::set_dmode`, on the value that `vals::PhaseMode::from_bits`
/// gives: replaces bits 24 to 26 by the low bits of `bits` and keeps the others.
#[verifier::external_body]
pub(crate) fn ccr_with_dmode(ccr: u32, bits: u8) -> (r: u32)
    ensures
        r == with_field(ccr, 24, 3, bits as u32),
{
    let mut w = regs::Ccr(ccr);
    w.set_dmode(vals::PhaseMode::from_bits(bits));
    w.0
}

/// `stm32_metapac::octospi::regs::Ccr::set_ddtr`: sets or clears bit 27 and keeps the other bits.
#[verifier::external_body]
pub(crate) fn ccr_with_ddtr(ccr: u32, on: bool) -> (r: u32)
    ensures
        r == with_flag(ccr, 27, on),
{
    let mut w = regs::Ccr(ccr);
    w.set_ddtr(on);
    w.0
}

/// `stm32_metapac::octospi::regs::Ccr::set_dqse`: sets or clears bit 29 and keeps the other bits.
#[verifier::external_body]
pub(crate) fn ccr_with_dqse(ccr: u32, on: bool) -> (r: u32)
    ensures
        r == with_flag(ccr, 29, on),
{
    let mut w = regs::Ccr(ccr);
    w.set_dqse(on);
    w.0
}

/// `stm32_metapac::octospi::regs::Ccr::set_sioo`: sets or clears bit 31 and keeps the other bits.
#[verifier::external_body]
pub(crate) fn ccr_with_sioo(ccr: u32, on: bool) -> (r: u32)
    ensures
        r == with_flag(ccr, 31, on),
{
    let mut w = regs::Ccr(ccr);
    w.set_sioo(on);
    w.0
}

/// `stm32_metapac::octospi::regs::Tcr::set_dcyc`: replaces bits 0 to 4 by the low bits of `bits`
/// and keeps the others.
#[verifier::external_body]
pub(crate) fn tcr_with_dcyc(tcr: u32, bits: u8) -> (r: u32)
    ensures
        r == with_field(tcr, 0, 5, bits as u32),
{
    let mut w = regs::Tcr(tcr);
    w.set_dcyc(bits);
    w.0
}

/// `stm32_metapac::octospi::regs::Tcr::set_dhqc`: sets or clears bit 28 and keeps the other bits.
#[verifier::external_body]
pub(crate) fn tcr_with_dhqc(tcr: u32, on: bool) -> (r: u32)
    ensures
        r == with_flag(tcr, 28, on),
{
    let mut w = regs::Tcr(tcr);
    w.set_dhqc(on);
    w.0
}

/// `stm32_metapac::octospi::regs::Tcr::set_sshift`, on the value that
/// `vals::SampleShift::from_bits` gives: replaces bit 30 by the lowest bit of `bits` and keeps the
/// others.
#[verifier::external_body]
pub(crate) fn tcr_with_sshift(tcr: u32, bits: u8) -> (r: u32)
    ensures
        r == with_field(tcr, 30, 1, bits as u32),
{
    let mut w = regs::Tcr(tcr);
    w.set_sshift(vals::SampleShift::from_bits(bits));
    w.0
}

/// `stm32_metapac::octospi::regs::Wccr::set_imode`, on the value that `vals::PhaseMode::from_bits`
/// gives: replaces bits 0 to 2 by the low bits of `bits` and keeps the others.
#[verifier::external_body]
pub(crate) fn wccr_with_imode(wccr: u32, bits: u8) -> (r: u32)
    ensures
        r == with_field(wccr, 0, 3, bits as u32),
{
    let mut w = regs::Wccr(wccr);
    w.set_imode(vals::PhaseMode::from_bits(bits));
    w.0
}

/// `stm32_metapac::octospi::regs::Wccr::set_idtr`: sets or clears bit 3 and keeps the other bits.
#[verifier::external_body]
pub(crate) fn wccr_with_idtr(wccr: u32, on: bool) -> (r: u32)
    ensures
        r == with_flag(wccr, 3, on),
{
    let mut w = regs::Wccr(wccr);
    w.set_idtr(on);
    w.0
}

/// `stm32_metapac::octospi::regs::Wccr::set_isize`, on the value that `vals::SizeInBits::from_bits`
/// gives: replaces bits 4 to 5 by the low bits of `bits` and keeps the others.
#[verifier::external_body]
pub(crate) fn wccr_with_isize(wccr: u32, bits: u8) -> (r: u32)
    ensures
        r == with_field(wccr, 4, 2, bits as u32),
{
    let mut w = regs::Wccr(wccr);
    w.set_isize(vals::SizeInBits::from_bits(bits));
    w.0
}

/// `stm32_metapac::octospi::regs::Wccr::set_admode`, on the value that `vals::PhaseMode::from_bits`
/// gives: replaces bits 8 to 10 by the low bits of `bits` and keeps the others.
#[verifier::external_body]
pub(crate) fn wccr_with_admode(wccr: u32, bits: u8) -> (r: u32)
    ensures
        r == with_field(wccr, 8, 3, bits as u32),
{
    let mut w = regs::Wccr(wccr);
    w.set_admode(vals::PhaseMode::from_bits(bits));
    w.0
}

/// `stm32_metapac::octospi::regs::Wccr::set_addtr`: sets or clears bit 11 and keeps the other bits.
#[verifier::external_body]
pub(crate) fn wccr_with_addtr(wccr: u32, on: bool) -> (r: u32)
    ensures
        r == with_flag(wccr, 11, on),
{
    let mut w = regs::Wccr(wccr);
    w.set_addtr(on);
    w.0
}

/// `stm32_metapac::octospi::regs::Wccr::set_adsize`, on the value that
/// `vals::SizeInBits::from_bits` gives: replaces bits 12 to 13 by the low bits of `bits` and keeps
/// the others.
#[verifier::external_body]
pub(crate) fn wccr_with_adsize(wccr: u32, bits: u8) -> (r: u32)
    ensures
        r == with_field(wccr, 12, 2, bits as u32),
{
    let mut w = regs::Wccr(wccr);
    w.set_adsize(vals::SizeInBits::from_bits(bits));
    w.0
}

/// `stm32_metapac::octospi::regs::Wccr::set_abmode`, on the value that `vals::PhaseMode::from_bits`
/// gives: replaces bits 16 to 18 by the low bits of `bits` and keeps the others.
#[verifier::external_body]
pub(crate) fn wccr_with_abmode(wccr: u32, bits: u8) -> (r: u32)
    ensures
        r == with_field(wccr, 16, 3, bits as u32),
{
    let mut w = regs::Wccr(wccr);
    w.set_abmode(vals::PhaseMode::from_bits(bits));
    w.0
}

/// `stm32_metapac::octospi::regs::Wccr::set_dmode`, on the value that `vals::PhaseMode::from_bits`
/// gives: replaces bits 24 to 26 by the low bits of `bits` and keeps the others.
#[verifier::external_body]
pub(crate) fn wccr_with_dmode(wccr: u32, bits: u8) -> (r: u32)
    ensures
        r == with_field(wccr, 24, 3, bits as u32),
{
    let mut w = regs::Wccr(wccr);
    w.set_dmode(vals::PhaseMode::from_bits(bits));
    w.0
}

/// `stm32_metapac::octospi::regs::Wccr::set_ddtr`: sets or clears bit 27 and keeps the other bits.
#[verifier::external_body]
pub(crate) fn wccr_with_ddtr(wccr: u32, on: bool) -> (r: u32)
    ensures
        r == with_flag(wccr, 27, on),
{
    let mut w = regs::Wccr(wccr);
    w.set_ddtr(on);
    w.0
}

/// `stm32_metapac::octospi::regs::Wccr::set_dqse`: sets or clears bit 29 and keeps the other bits.
#[verifier::external_body]
pub(crate) fn wccr_with_dqse(wccr: u32, on: bool) -> (r: u32)
    ensures
        r == with_flag(wccr, 29, on),
{
    let mut w = regs::Wccr(wccr);
    w.set_dqse(on);
    w.0
}

/// `stm32_metapac::octospi::regs::Wtcr::set_dcyc`: replaces bits 0 to 4 by the low bits of `bits`
/// and keeps the others.
#[verifier::external_body]
pub(crate) fn wtcr_with_dcyc(wtcr: u32, bits: u8) -> (r: u32)
    ensures
        r == with_field(wtcr, 0, 5, bits as u32),
{
    let mut w = regs::Wtcr(wtcr);
    w.set_dcyc(bits);
    w.0
}

/// `stm32_metapac::octospi::regs::Sr::tcf`: whether bit 1 is set.
#[verifier::external_body]
pub(crate) fn sr_tcf(sr: u32) -> (r: bool)
    ensures
        r == flag(sr, 1),
{
    regs::Sr(sr).tcf()
}

/// `stm32_metapac::octospi::regs::Sr::ftf`: whether bit 2 is set.
#[verifier::external_body]
pub(crate) fn sr_ftf(sr: u32) -> (r: bool)
    ensures
        r == flag(sr, 2),
{
    regs::Sr(sr).ftf()
}

/// `stm32_metapac::octospi::regs::Sr::busy`: whether bit 5 is set.
#[verifier::external_body]
pub(crate) fn sr_busy(sr: u32) -> (r: bool)
    ensures
        r == flag(sr, 5),
{
    regs::Sr(sr).busy()
}

/// `stm32_metapac::octospi::regs::Ccr::admode`, as the bits that `vals::PhaseMode::to_bits` gives:
/// bits 8 to 10 of the register.
#[verifier::external_body]
pub(crate) fn ccr_admode(ccr: u32) -> (r: u8)
    ensures
        r as u32 == field(ccr, 8, 3),
{
    regs::Ccr(ccr).admode().to_bits()
}

/// `stm32_metapac::octospi::regs::Ar::address`: the field is the whole register.
#[verifier::external_body]
pub(crate) fn ar_address(ar: u32) -> (r: u32)
    ensures
        r == ar,
{
    regs::Ar(ar).address()
}

/// `stm32_metapac::octospi::regs::Ir::instruction`: the field is the whole register.
#[verifier::external_body]
pub(crate) fn ir_instruction(ir: u32) -> (r: u32)
    ensures
        r == ir,
{
    regs::Ir(ir).instruction()
}

/// `stm32_metapac::octospim::regs::Cr::set_muxen`: sets or clears bit 0 and keeps the other bits.
#[verifier::external_body]
pub(crate) fn manager_cr_with_muxen(manager_cr: u32, on: bool) -> (r: u32)
    ensures
        r == with_flag(manager_cr, 0, on),
{
    let mut w = octospim::regs::Cr(manager_cr);
    w.set_muxen(on);
    w.0
}

/// `stm32_metapac::octospim::regs::Cr::set_req2ack_time`: replaces bits 16 to 23 by the low bits of
/// `bits` and keeps the others.
#[verifier::external_body]
pub(crate) fn manager_cr_with_req2ack_time(manager_cr: u32, bits: u8) -> (r: u32)
    ensures
        r == with_field(manager_cr, 16, 8, bits as u32),
{
    let mut w = octospim::regs::Cr(manager_cr);
    w.set_req2ack_time(bits);
    w.0
}

/// `stm32_metapac::octospim::regs::P1cr::set_clken`: sets or clears bit 0 and keeps the other bits.
#[verifier::external_body]
pub(crate) fn p1cr_with_clken(p1cr: u32, on: bool) -> (r: u32)
    ensures
        r == with_flag(p1cr, 0, on),
{
    let mut w = octospim::regs::P1cr(p1cr);
    w.set_clken(on);
    w.0
}

/// `stm32_metapac::octospim::regs::P1cr::set_clksrc`: sets or clears bit 1 and keeps the other
/// bits.
#[verifier::external_body]
pub(crate) fn p1cr_with_clksrc(p1cr: u32, on: bool) -> (r: u32)
    ensures
        r == with_flag(p1cr, 1, on),
{
    let mut w = octospim::regs::P1cr(p1cr);
    w.set_clksrc(on);
    w.0
}

/// `stm32_metapac::octospim::regs::P1cr::set_dqsen`: sets or clears bit 4 and keeps the other bits.
#[verifier::external_body]
pub(crate) fn p1cr_with_dqsen(p1cr: u32, on: bool) -> (r: u32)
    ensures
        r == with_flag(p1cr, 4, on),
{
    let mut w = octospim::regs::P1cr(p1cr);
    w.set_dqsen(on);
    w.0
}

/// `stm32_metapac::octospim::regs::P1cr::set_dqssrc`: sets or clears bit 5 and keeps the other
/// bits.
#[verifier::external_body]
pub(crate) fn p1cr_with_dqssrc(p1cr: u32, on: bool) -> (r: u32)
    ensures
        r == with_flag(p1cr, 5, on),
{
    let mut w = octospim::regs::P1cr(p1cr);
    w.set_dqssrc(on);
    w.0
}

/// `stm32_metapac::octospim::regs::P1cr::set_ncsen`: sets or clears bit 8 and keeps the other bits.
#[verifier::external_body]
pub(crate) fn p1cr_with_ncsen(p1cr: u32, on: bool) -> (r: u32)
    ensures
        r == with_flag(p1cr, 8, on),
{
    let mut w = octospim::regs::P1cr(p1cr);
    w.set_ncsen(on);
    w.0
}

/// `stm32_metapac::octospim::regs::P1cr::set_ncssrc`: sets or clears bit 9 and keeps the other
/// bits.
#[verifier::external_body]
pub(crate) fn p1cr_with_ncssrc(p1cr: u32, on: bool) -> (r: u32)
    ensures
        r == with_flag(p1cr, 9, on),
{
    let mut w = octospim::regs::P1cr(p1cr);
    w.set_ncssrc(on);
    w.0
}

/// `stm32_metapac::octospim::regs::P1cr::set_iolen`: sets or clears bit 16 and keeps the other
/// bits.
#[verifier::external_body]
pub(crate) fn p1cr_with_iolen(p1cr: u32, on: bool) -> (r: u32)
    ensures
        r == with_flag(p1cr, 16, on),
{
    let mut w = octospim::regs::P1cr(p1cr);
    w.set_iolen(on);
    w.0
}

/// `stm32_metapac::octospim::regs::P1cr::set_iolsrc`: replaces bits 17 to 18 by the low bits of
/// `bits` and keeps the others.
#[verifier::external_body]
pub(crate) fn p1cr_with_iolsrc(p1cr: u32, bits: u8) -> (r: u32)
    ensures
        r == with_field(p1cr, 17, 2, bits as u32),
{
    let mut w = octospim::regs::P1cr(p1cr);
    w.set_iolsrc(bits);
    w.0
}

/// `stm32_metapac::octospim::regs::P1cr::set_iohen`: sets or clears bit 24 and keeps the other
/// bits.
#[verifier::external_body]
pub(crate) fn p1cr_with_iohen(p1cr: u32, on: bool) -> (r: u32)
    ensures
        r == with_flag(p1cr, 24, on),
{
    let mut w = octospim::regs::P1cr(p1cr);
    w.set_iohen(on);
    w.0
}

/// `stm32_metapac::octospim::regs::P1cr::set_iohsrc`: replaces bits 25 to 26 by the low bits of
/// `bits` and keeps the others.
#[verifier::external_body]
pub(crate) fn p1cr_with_iohsrc(p1cr: u32, bits: u8) -> (r: u32)
    ensures
        r == with_field(p1cr, 25, 2, bits as u32),
{
    let mut w = octospim::regs::P1cr(p1cr);
    w.set_iohsrc(bits);
    w.0
}

/// `stm32_metapac::rcc::regs::Ahb2enr1::set_octospimen`: sets or clears bit 21 and keeps the other
/// bits.
#[verifier::external_body]
pub(crate) fn ahb2enr1_with_octospimen(ahb2enr1: u32, on: bool) -> (r: u32)
    ensures
        r == with_flag(ahb2enr1, 21, on),
{
    let mut w = rcc::regs::Ahb2enr1(ahb2enr1);
    w.set_octospimen(on);
    w.0
}

} // verus!
