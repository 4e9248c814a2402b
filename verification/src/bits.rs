//! Bit fields of the peripheral's registers.
//!
//! The register words are packed and unpacked by the accessor methods of
//! `stm32_metapac::i2c::regs`. Each accessor in use has one function here
//! that calls it; its contract restates the accessor's shift and mask and is
//! taken on trust.
use vstd::prelude::*;
use stm32_metapac::i2c::regs::{Cr1, Cr2, Icr, Isr, Oar1, Oar2, Rxdr, Timingr, Txdr};
use stm32_metapac::i2c::vals::{Addmode, Autoend, Dir, Oamsk, Reload};
use crate::types::{AddrMask, AddressMode, Direction, Stop};

verus! {

/// `word` with the field of width `mask` at bit `shift` replaced by the low
/// bits of `val`.
pub open spec fn field_set(word: u32, shift: u32, mask: u32, val: u32) -> u32 {
    (word & !(mask << shift)) | ((val & mask) << shift)
}

/// The field of width `mask` at bit `shift` of `word`.
pub open spec fn field_get(word: u32, shift: u32, mask: u32) -> u32 {
    (word >> shift) & mask
}

/// `word` with bit `shift` set to `val`.
pub open spec fn bit_set(word: u32, shift: u32, val: bool) -> u32 {
    field_set(word, shift, 0x01, if val { 1 } else { 0 })
}

/// Whether bit `shift` of `word` is set.
pub open spec fn bit_get(word: u32, shift: u32) -> bool {
    field_get(word, shift, 0x01) != 0
}

/// The register encoding of a direction.
pub open spec fn direction_bits(val: Direction) -> u32 {
    match val {
        Direction::Write => 0,
        Direction::Read => 1,
    }
}

/// The register encoding of an address width.
pub open spec fn address_mode_bits(val: AddressMode) -> u32 {
    match val {
        AddressMode::Bit7 => 0,
        AddressMode::Bit10 => 1,
    }
}

/// The register encoding of a stop policy.
pub open spec fn stop_bits(val: Stop) -> u32 {
    match val {
        Stop::Software => 0,
        Stop::Automatic => 1,
    }
}

/// The register encoding of an address mask.
pub open spec fn mask_bits(val: AddrMask) -> u32 {
    match val {
        AddrMask::NoMask => 0,
        AddrMask::Mask1 => 1,
        AddrMask::Mask2 => 2,
        AddrMask::Mask3 => 3,
        AddrMask::Mask4 => 4,
        AddrMask::Mask5 => 5,
        AddrMask::Mask6 => 6,
        AddrMask::Mask7 => 7,
    }
}

/// `Cr1::set_pe`: puts `val` into bit 0 (peripheral enable) and leaves the
/// other bits.
#[verifier::external_body]
pub(crate) fn cr1_set_pe(word: u32, val: bool) -> (r: u32)
    ensures
        r == bit_set(word, 0, val),
{
    let mut reg = Cr1(word);
    reg.set_pe(val);
    reg.0
}

/// `Cr1::set_txie`: puts `val` into bit 1 (transmit interrupt enable) and leaves the
/// other bits.
#[verifier::external_body]
pub(crate) fn cr1_set_txie(word: u32, val: bool) -> (r: u32)
    ensures
        r == bit_set(word, 1, val),
{
    let mut reg = Cr1(word);
    reg.set_txie(val);
    reg.0
}

/// `Cr1::set_addrie`: puts `val` into bit 3 (address match interrupt enable) and leaves the
/// other bits.
#[verifier::external_body]
pub(crate) fn cr1_set_addrie(word: u32, val: bool) -> (r: u32)
    ensures
        r == bit_set(word, 3, val),
{
    let mut reg = Cr1(word);
    reg.set_addrie(val);
    reg.0
}

/// `Cr1::set_stopie`: puts `val` into bit 5 (stop detection interrupt enable) and leaves the
/// other bits.
#[verifier::external_body]
pub(crate) fn cr1_set_stopie(word: u32, val: bool) -> (r: u32)
    ensures
        r == bit_set(word, 5, val),
{
    let mut reg = Cr1(word);
    reg.set_stopie(val);
    reg.0
}

/// `Cr1::set_tcie`: puts `val` into bit 6 (transfer complete interrupt enable) and leaves the
/// other bits.
#[verifier::external_body]
pub(crate) fn cr1_set_tcie(word: u32, val: bool) -> (r: u32)
    ensures
        r == bit_set(word, 6, val),
{
    let mut reg = Cr1(word);
    reg.set_tcie(val);
    reg.0
}

/// `Cr1::set_anfoff`: puts `val` into bit 12 (analog filter off) and leaves the
/// other bits.
#[verifier::external_body]
pub(crate) fn cr1_set_anfoff(word: u32, val: bool) -> (r: u32)
    ensures
        r == bit_set(word, 12, val),
{
    let mut reg = Cr1(word);
    reg.set_anfoff(val);
    reg.0
}

/// `Cr1::set_txdmaen`: puts `val` into bit 14 (transmit DMA requests) and leaves the
/// other bits.
#[verifier::external_body]
pub(crate) fn cr1_set_txdmaen(word: u32, val: bool) -> (r: u32)
    ensures
        r == bit_set(word, 14, val),
{
    let mut reg = Cr1(word);
    reg.set_txdmaen(val);
    reg.0
}

/// `Cr1::set_rxdmaen`: puts `val` into bit 15 (receive DMA requests) and leaves the
/// other bits.
#[verifier::external_body]
pub(crate) fn cr1_set_rxdmaen(word: u32, val: bool) -> (r: u32)
    ensures
        r == bit_set(word, 15, val),
{
    let mut reg = Cr1(word);
    reg.set_rxdmaen(val);
    reg.0
}

/// `Cr1::set_sbc`: puts `val` into bit 16 (slave byte control) and leaves the
/// other bits.
#[verifier::external_body]
pub(crate) fn cr1_set_sbc(word: u32, val: bool) -> (r: u32)
    ensures
        r == bit_set(word, 16, val),
{
    let mut reg = Cr1(word);
    reg.set_sbc(val);
    reg.0
}

/// `Cr1::set_nostretch`: puts `val` into bit 17 (clock stretching off) and leaves the
/// other bits.
#[verifier::external_body]
pub(crate) fn cr1_set_nostretch(word: u32, val: bool) -> (r: u32)
    ensures
        r == bit_set(word, 17, val),
{
    let mut reg = Cr1(word);
    reg.set_nostretch(val);
    reg.0
}

/// `Cr1::set_gcen`: puts `val` into bit 19 (general call enable) and leaves the
/// other bits.
#[verifier::external_body]
pub(crate) fn cr1_set_gcen(word: u32, val: bool) -> (r: u32)
    ensures
        r == bit_set(word, 19, val),
{
    let mut reg = Cr1(word);
    reg.set_gcen(val);
    reg.0
}

/// `Cr2::set_sadd`: puts the low bits of `val` into bits 0 to 9
/// (slave address) and leaves the other bits.
#[verifier::external_body]
pub(crate) fn cr2_set_sadd(word: u32, val: u16) -> (r: u32)
    ensures
        r == field_set(word, 0, 0x03ff, val as u32),
{
    let mut reg = Cr2(word);
    reg.set_sadd(val);
    reg.0
}

/// `Cr2::set_dir`: puts the direction into bit 10 and leaves the other bits.
#[verifier::external_body]
pub(crate) fn cr2_set_dir(word: u32, val: Direction) -> (r: u32)
    ensures
        r == field_set(word, 10, 0x01, direction_bits(val)),
{
    let mut reg = Cr2(word);
    reg.set_dir(
        match val {
            Direction::Write => Dir::WRITE,
            Direction::Read => Dir::READ,
        },
    );
    reg.0
}

/// `Cr2::set_add10`: puts the address width into bit 11 and leaves the other
/// bits.
#[verifier::external_body]
pub(crate) fn cr2_set_add10(word: u32, val: AddressMode) -> (r: u32)
    ensures
        r == field_set(word, 11, 0x01, address_mode_bits(val)),
{
    let mut reg = Cr2(word);
    reg.set_add10(
        match val {
            AddressMode::Bit7 => Addmode::BIT7,
            AddressMode::Bit10 => Addmode::BIT10,
        },
    );
    reg.0
}

/// `Cr2::start`: whether bit 13 (start generation) is set.
#[verifier::external_body]
pub(crate) fn cr2_start(word: u32) -> (r: bool)
    ensures
        r == bit_get(word, 13),
{
    Cr2(word).start()
}

/// `Cr2::set_start`: puts `val` into bit 13 (start generation) and leaves the
/// other bits.
#[verifier::external_body]
pub(crate) fn cr2_set_start(word: u32, val: bool) -> (r: u32)
    ensures
        r == bit_set(word, 13, val),
{
    let mut reg = Cr2(word);
    reg.set_start(val);
    reg.0
}

/// `Cr2::set_stop`: puts `val` into bit 14 (stop generation) and leaves the
/// other bits.
#[verifier::external_body]
pub(crate) fn cr2_set_stop(word: u32, val: bool) -> (r: u32)
    ensures
        r == bit_set(word, 14, val),
{
    let mut reg = Cr2(word);
    reg.set_stop(val);
    reg.0
}

/// `Cr2::set_nack`: puts `val` into bit 15 (NACK generation) and leaves the
/// other bits.
#[verifier::external_body]
pub(crate) fn cr2_set_nack(word: u32, val: bool) -> (r: u32)
    ensures
        r == bit_set(word, 15, val),
{
    let mut reg = Cr2(word);
    reg.set_nack(val);
    reg.0
}

/// `Cr2::set_nbytes`: puts the low bits of `val` into bits 16 to 23
/// (number of bytes) and leaves the other bits.
#[verifier::external_body]
pub(crate) fn cr2_set_nbytes(word: u32, val: u8) -> (r: u32)
    ensures
        r == field_set(word, 16, 0xff, val as u32),
{
    let mut reg = Cr2(word);
    reg.set_nbytes(val);
    reg.0
}

/// `Cr2::set_reload`: puts the reload mode into bit 24, set for "not
/// completed", and leaves the other bits.
#[verifier::external_body]
pub(crate) fn cr2_set_reload(word: u32, val: bool) -> (r: u32)
    ensures
        r == bit_set(word, 24, val),
{
    let mut reg = Cr2(word);
    reg.set_reload(if val { Reload::NOT_COMPLETED } else { Reload::COMPLETED });
    reg.0
}

/// `Cr2::set_autoend`: puts the stop policy into bit 25 and leaves the other
/// bits.
#[verifier::external_body]
pub(crate) fn cr2_set_autoend(word: u32, val: Stop) -> (r: u32)
    ensures
        r == field_set(word, 25, 0x01, stop_bits(val)),
{
    let mut reg = Cr2(word);
    reg.set_autoend(
        match val {
            Stop::Software => Autoend::SOFTWARE,
            Stop::Automatic => Autoend::AUTOMATIC,
        },
    );
    reg.0
}

/// `Icr::set_addrcf`: puts `val` into bit 3 (address matched flag clear) and leaves the
/// other bits.
#[verifier::external_body]
pub(crate) fn icr_set_addrcf(word: u32, val: bool) -> (r: u32)
    ensures
        r == bit_set(word, 3, val),
{
    let mut reg = Icr(word);
    reg.set_addrcf(val);
    reg.0
}

/// `Icr::set_nackcf`: puts `val` into bit 4 (not acknowledge flag clear) and leaves the
/// other bits.
#[verifier::external_body]
pub(crate) fn icr_set_nackcf(word: u32, val: bool) -> (r: u32)
    ensures
        r == bit_set(word, 4, val),
{
    let mut reg = Icr(word);
    reg.set_nackcf(val);
    reg.0
}

/// `Icr::set_stopcf`: puts `val` into bit 5 (stop detection flag clear) and leaves the
/// other bits.
#[verifier::external_body]
pub(crate) fn icr_set_stopcf(word: u32, val: bool) -> (r: u32)
    ensures
        r == bit_set(word, 5, val),
{
    let mut reg = Icr(word);
    reg.set_stopcf(val);
    reg.0
}

/// `Icr::set_berrcf`: puts `val` into bit 8 (bus error flag clear) and leaves the
/// other bits.
#[verifier::external_body]
pub(crate) fn icr_set_berrcf(word: u32, val: bool) -> (r: u32)
    ensures
        r == bit_set(word, 8, val),
{
    let mut reg = Icr(word);
    reg.set_berrcf(val);
    reg.0
}

/// `Icr::set_arlocf`: puts `val` into bit 9 (arbitration lost flag clear) and leaves the
/// other bits.
#[verifier::external_body]
pub(crate) fn icr_set_arlocf(word: u32, val: bool) -> (r: u32)
    ensures
        r == bit_set(word, 9, val),
{
    let mut reg = Icr(word);
    reg.set_arlocf(val);
    reg.0
}

/// `Isr::txe`: whether bit 0 (transmit data register empty) is set.
#[verifier::external_body]
pub(crate) fn isr_txe(word: u32) -> (r: bool)
    ensures
        r == bit_get(word, 0),
{
    Isr(word).txe()
}

/// `Isr::txis`: whether bit 1 (transmit interrupt status) is set.
#[verifier::external_body]
pub(crate) fn isr_txis(word: u32) -> (r: bool)
    ensures
        r == bit_get(word, 1),
{
    Isr(word).txis()
}

/// `Isr::rxne`: whether bit 2 (receive data register not empty) is set.
#[verifier::external_body]
pub(crate) fn isr_rxne(word: u32) -> (r: bool)
    ensures
        r == bit_get(word, 2),
{
    Isr(word).rxne()
}

/// `Isr::addr`: whether bit 3 (address matched) is set.
#[verifier::external_body]
pub(crate) fn isr_addr(word: u32) -> (r: bool)
    ensures
        r == bit_get(word, 3),
{
    Isr(word).addr()
}

/// `Isr::nackf`: whether bit 4 (not acknowledge received) is set.
#[verifier::external_body]
pub(crate) fn isr_nackf(word: u32) -> (r: bool)
    ensures
        r == bit_get(word, 4),
{
    Isr(word).nackf()
}

/// `Isr::stopf`: whether bit 5 (stop detected) is set.
#[verifier::external_body]
pub(crate) fn isr_stopf(word: u32) -> (r: bool)
    ensures
        r == bit_get(word, 5),
{
    Isr(word).stopf()
}

/// `Isr::tc`: whether bit 6 (transfer complete) is set.
#[verifier::external_body]
pub(crate) fn isr_tc(word: u32) -> (r: bool)
    ensures
        r == bit_get(word, 6),
{
    Isr(word).tc()
}

/// `Isr::tcr`: whether bit 7 (transfer complete reload) is set.
#[verifier::external_body]
pub(crate) fn isr_tcr(word: u32) -> (r: bool)
    ensures
        r == bit_get(word, 7),
{
    Isr(word).tcr()
}

/// `Isr::berr`: whether bit 8 (bus error) is set.
#[verifier::external_body]
pub(crate) fn isr_berr(word: u32) -> (r: bool)
    ensures
        r == bit_get(word, 8),
{
    Isr(word).berr()
}

/// `Isr::arlo`: whether bit 9 (arbitration lost) is set.
#[verifier::external_body]
pub(crate) fn isr_arlo(word: u32) -> (r: bool)
    ensures
        r == bit_get(word, 9),
{
    Isr(word).arlo()
}

/// `Isr::ovr`: whether bit 10 (overrun or underrun) is set.
#[verifier::external_body]
pub(crate) fn isr_ovr(word: u32) -> (r: bool)
    ensures
        r == bit_get(word, 10),
{
    Isr(word).ovr()
}

/// `Isr::set_txe`: puts `val` into bit 0 (transmit data register empty) and leaves the
/// other bits.
#[verifier::external_body]
pub(crate) fn isr_set_txe(word: u32, val: bool) -> (r: u32)
    ensures
        r == bit_set(word, 0, val),
{
    let mut reg = Isr(word);
    reg.set_txe(val);
    reg.0
}

/// `Isr::dir`: the direction of the matched transfer, a read where bit 16 is
/// set.
#[verifier::external_body]
pub(crate) fn isr_dir(word: u32) -> (r: Direction)
    ensures
        r == (if bit_get(word, 16) { Direction::Read } else { Direction::Write }),
{
    match Isr(word).dir() {
        Dir::WRITE => Direction::Write,
        Dir::READ => Direction::Read,
    }
}

/// `Isr::addcode`: bits 17 to 23 (address match code).
#[verifier::external_body]
pub(crate) fn isr_addcode(word: u32) -> (r: u8)
    ensures
        r == field_get(word, 17, 0x7f),
{
    Isr(word).addcode()
}

/// `Oar1::set_oa1`: puts the low bits of `val` into bits 0 to 9
/// (interface address) and leaves the other bits.
#[verifier::external_body]
pub(crate) fn oar1_set_oa1(word: u32, val: u16) -> (r: u32)
    ensures
        r == field_set(word, 0, 0x03ff, val as u32),
{
    let mut reg = Oar1(word);
    reg.set_oa1(val);
    reg.0
}

/// `Oar1::set_oa1mode`: puts the address width into bit 10 and leaves the
/// other bits.
#[verifier::external_body]
pub(crate) fn oar1_set_oa1mode(word: u32, val: AddressMode) -> (r: u32)
    ensures
        r == field_set(word, 10, 0x01, address_mode_bits(val)),
{
    let mut reg = Oar1(word);
    reg.set_oa1mode(
        match val {
            AddressMode::Bit7 => Addmode::BIT7,
            AddressMode::Bit10 => Addmode::BIT10,
        },
    );
    reg.0
}

/// `Oar1::set_oa1en`: puts `val` into bit 15 (own address 1 enable) and leaves the
/// other bits.
#[verifier::external_body]
pub(crate) fn oar1_set_oa1en(word: u32, val: bool) -> (r: u32)
    ensures
        r == bit_set(word, 15, val),
{
    let mut reg = Oar1(word);
    reg.set_oa1en(val);
    reg.0
}

/// `Oar2::set_oa2`: puts the low bits of `val` into bits 1 to 7
/// (interface address) and leaves the other bits.
#[verifier::external_body]
pub(crate) fn oar2_set_oa2(word: u32, val: u8) -> (r: u32)
    ensures
        r == field_set(word, 1, 0x7f, val as u32),
{
    let mut reg = Oar2(word);
    reg.set_oa2(val);
    reg.0
}

/// `Oar2::set_oa2msk`: puts the address mask into bits 8 to 10 and leaves the
/// other bits.
#[verifier::external_body]
pub(crate) fn oar2_set_oa2msk(word: u32, val: AddrMask) -> (r: u32)
    ensures
        r == field_set(word, 8, 0x07, mask_bits(val)),
{
    let mut reg = Oar2(word);
    reg.set_oa2msk(
        match val {
            AddrMask::NoMask => Oamsk::NO_MASK,
            AddrMask::Mask1 => Oamsk::MASK1,
            AddrMask::Mask2 => Oamsk::MASK2,
            AddrMask::Mask3 => Oamsk::MASK3,
            AddrMask::Mask4 => Oamsk::MASK4,
            AddrMask::Mask5 => Oamsk::MASK5,
            AddrMask::Mask6 => Oamsk::MASK6,
            AddrMask::Mask7 => Oamsk::MASK7,
        },
    );
    reg.0
}

/// `Oar2::set_oa2en`: puts `val` into bit 15 (own address 2 enable) and leaves the
/// other bits.
#[verifier::external_body]
pub(crate) fn oar2_set_oa2en(word: u32, val: bool) -> (r: u32)
    ensures
        r == bit_set(word, 15, val),
{
    let mut reg = Oar2(word);
    reg.set_oa2en(val);
    reg.0
}

/// `Rxdr::rxdata`: bits 0 to 7 (receive data).
#[verifier::external_body]
pub(crate) fn rxdr_rxdata(word: u32) -> (r: u8)
    ensures
        r == field_get(word, 0, 0xff),
{
    Rxdr(word).rxdata()
}

/// `Timingr::set_scll`: puts the low bits of `val` into bits 0 to 7
/// (clock low period) and leaves the other bits.
#[verifier::external_body]
pub(crate) fn timingr_set_scll(word: u32, val: u8) -> (r: u32)
    ensures
        r == field_set(word, 0, 0xff, val as u32),
{
    let mut reg = Timingr(word);
    reg.set_scll(val);
    reg.0
}

/// `Timingr::set_sclh`: puts the low bits of `val` into bits 8 to 15
/// (clock high period) and leaves the other bits.
#[verifier::external_body]
pub(crate) fn timingr_set_sclh(word: u32, val: u8) -> (r: u32)
    ensures
        r == field_set(word, 8, 0xff, val as u32),
{
    let mut reg = Timingr(word);
    reg.set_sclh(val);
    reg.0
}

/// `Timingr::set_sdadel`: puts the low bits of `val` into bits 16 to 19
/// (data hold time) and leaves the other bits.
#[verifier::external_body]
pub(crate) fn timingr_set_sdadel(word: u32, val: u8) -> (r: u32)
    ensures
        r == field_set(word, 16, 0x0f, val as u32),
{
    let mut reg = Timingr(word);
    reg.set_sdadel(val);
    reg.0
}

/// `Timingr::set_scldel`: puts the low bits of `val` into bits 20 to 23
/// (data setup time) and leaves the other bits.
#[verifier::external_body]
pub(crate) fn timingr_set_scldel(word: u32, val: u8) -> (r: u32)
    ensures
        r == field_set(word, 20, 0x0f, val as u32),
{
    let mut reg = Timingr(word);
    reg.set_scldel(val);
    reg.0
}

/// `Timingr::set_presc`: puts the low bits of `val` into bits 28 to 31
/// (timing prescaler) and leaves the other bits.
#[verifier::external_body]
pub(crate) fn timingr_set_presc(word: u32, val: u8) -> (r: u32)
    ensures
        r == field_set(word, 28, 0x0f, val as u32),
{
    let mut reg = Timingr(word);
    reg.set_presc(val);
    reg.0
}

/// `Txdr::set_txdata`: puts the low bits of `val` into bits 0 to 7
/// (transmit data) and leaves the other bits.
#[verifier::external_body]
pub(crate) fn txdr_set_txdata(word: u32, val: u8) -> (r: u32)
    ensures
        r == field_set(word, 0, 0xff, val as u32),
{
    let mut reg = Txdr(word);
    reg.set_txdata(val);
    reg.0
}

} // verus!
