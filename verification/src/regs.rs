//! Register contents as the engines read and write them: the decoded status
//! register and partial updates of the control registers, with their packing
//! into words.
use vstd::prelude::*;
use crate::bits::{
    bit_get, bit_set, cr1_set_addrie, cr1_set_anfoff, cr1_set_gcen, cr1_set_nostretch, cr1_set_pe,
    cr1_set_rxdmaen, cr1_set_sbc, cr1_set_stopie, cr1_set_tcie, cr1_set_txdmaen, cr1_set_txie,
    cr2_set_add10, cr2_set_autoend, cr2_set_dir, cr2_set_nack, cr2_set_nbytes, cr2_set_reload,
    cr2_set_sadd, cr2_set_start, cr2_set_stop, cr2_start, field_get, field_set, icr_set_addrcf,
    icr_set_arlocf, icr_set_berrcf, icr_set_nackcf, icr_set_stopcf, isr_addcode, isr_addr,
    isr_arlo, isr_berr, isr_dir, isr_nackf, isr_ovr, isr_rxne, isr_set_txe, isr_stopf, isr_tc,
    isr_tcr, isr_txe, isr_txis, oar1_set_oa1, oar1_set_oa1en, oar1_set_oa1mode, oar2_set_oa2,
    oar2_set_oa2en, oar2_set_oa2msk, rxdr_rxdata, timingr_set_presc, timingr_set_scldel,
    timingr_set_sclh, timingr_set_scll, timingr_set_sdadel, txdr_set_txdata, address_mode_bits,
    direction_bits, mask_bits, stop_bits,
};
use crate::types::{AddressMode, Direction, OwnAddress, Stop, OA2};

verus! {

/// The status register, decoded.
#[derive(Clone, Copy, Debug, PartialEq, Eq)]
pub struct Status {
    pub txe: bool,
    pub txis: bool,
    pub rxne: bool,
    pub addr: bool,
    pub nackf: bool,
    pub stopf: bool,
    pub tc: bool,
    pub tcr: bool,
    pub berr: bool,
    pub arlo: bool,
    pub ovr: bool,
    pub dir: Direction,
    pub addcode: u8,
}

impl Status {
    /// What a status word says.
    pub open spec fn of(word: u32) -> Status {
        Status {
            txe: bit_get(word, 0),
            txis: bit_get(word, 1),
            rxne: bit_get(word, 2),
            addr: bit_get(word, 3),
            nackf: bit_get(word, 4),
            stopf: bit_get(word, 5),
            tc: bit_get(word, 6),
            tcr: bit_get(word, 7),
            berr: bit_get(word, 8),
            arlo: bit_get(word, 9),
            ovr: bit_get(word, 10),
            dir: if bit_get(word, 16) {
                Direction::Read
            } else {
                Direction::Write
            },
            addcode: field_get(word, 17, 0x7f) as u8,
        }
    }

    /// Decodes a word read from the status register.
    pub fn decode(word: u32) -> (s: Status)
        ensures
            s == Status::of(word),
    {
        Status {
            txe: isr_txe(word),
            txis: isr_txis(word),
            rxne: isr_rxne(word),
            addr: isr_addr(word),
            nackf: isr_nackf(word),
            stopf: isr_stopf(word),
            tc: isr_tc(word),
            tcr: isr_tcr(word),
            berr: isr_berr(word),
            arlo: isr_arlo(word),
            ovr: isr_ovr(word),
            dir: isr_dir(word),
            addcode: isr_addcode(word),
        }
    }
}

/// Whether a word read from control register 2 still asks for a START.
pub open spec fn start_pending(word: u32) -> bool {
    bit_get(word, 13)
}

/// Tells whether the START bit of a control register 2 word is set.
pub fn decode_start(word: u32) -> (pending: bool)
    ensures
        pending == start_pending(word),
{
    cr2_start(word)
}

/// The data byte of a word read from the receive register.
pub open spec fn received_byte(word: u32) -> u8 {
    field_get(word, 0, 0xff) as u8
}

/// Takes the data byte out of a word read from the receive register.
pub fn decode_data(word: u32) -> (byte: u8)
    ensures
        byte == received_byte(word),
{
    rxdr_rxdata(word)
}

/// `word` with bit `shift` set as `val` says, or as it is.
pub open spec fn bit_put(word: u32, shift: u32, val: Option<bool>) -> u32 {
    match val {
        Some(on) => bit_set(word, shift, on),
        None => word,
    }
}

/// A partial update of control register 1: each field is set, cleared, or
/// left as it is.
#[derive(Clone, Copy, Debug, PartialEq, Eq)]
pub struct Cr1Update {
    pub pe: Option<bool>,
    pub txie: Option<bool>,
    pub addrie: Option<bool>,
    pub stopie: Option<bool>,
    pub tcie: Option<bool>,
    pub anfoff: Option<bool>,
    pub txdmaen: Option<bool>,
    pub rxdmaen: Option<bool>,
    pub sbc: Option<bool>,
    pub nostretch: Option<bool>,
    pub gcen: Option<bool>,
}

impl Cr1Update {
    /// The update that changes nothing.
    pub open spec fn spec_keep() -> Cr1Update {
        Cr1Update {
            pe: None,
            txie: None,
            addrie: None,
            stopie: None,
            tcie: None,
            anfoff: None,
            txdmaen: None,
            rxdmaen: None,
            sbc: None,
            nostretch: None,
            gcen: None,
        }
    }

    /// The update that changes nothing.
    #[verifier::when_used_as_spec(spec_keep)]
    pub fn keep() -> (u: Cr1Update)
        ensures
            u == Self::spec_keep(),
    {
        Cr1Update {
            pe: None,
            txie: None,
            addrie: None,
            stopie: None,
            tcie: None,
            anfoff: None,
            txdmaen: None,
            rxdmaen: None,
            sbc: None,
            nostretch: None,
            gcen: None,
        }
    }

    /// The register word after the update.
    pub open spec fn apply_spec(self, word: u32) -> u32 {
        let w = bit_put(word, 0, self.pe);
        let w = bit_put(w, 1, self.txie);
        let w = bit_put(w, 3, self.addrie);
        let w = bit_put(w, 5, self.stopie);
        let w = bit_put(w, 6, self.tcie);
        let w = bit_put(w, 12, self.anfoff);
        let w = bit_put(w, 14, self.txdmaen);
        let w = bit_put(w, 15, self.rxdmaen);
        let w = bit_put(w, 16, self.sbc);
        let w = bit_put(w, 17, self.nostretch);
        bit_put(w, 19, self.gcen)
    }

    /// Applies the update to a register word.
    pub fn apply(&self, word: u32) -> (r: u32)
        ensures
            r == self.apply_spec(word),
    {
        let w: u32 = match self.pe { Some(on) => cr1_set_pe(word, on), None => word };
        let w: u32 = match self.txie { Some(on) => cr1_set_txie(w, on), None => w };
        let w: u32 = match self.addrie { Some(on) => cr1_set_addrie(w, on), None => w };
        let w: u32 = match self.stopie { Some(on) => cr1_set_stopie(w, on), None => w };
        let w: u32 = match self.tcie { Some(on) => cr1_set_tcie(w, on), None => w };
        let w: u32 = match self.anfoff { Some(on) => cr1_set_anfoff(w, on), None => w };
        let w: u32 = match self.txdmaen { Some(on) => cr1_set_txdmaen(w, on), None => w };
        let w: u32 = match self.rxdmaen { Some(on) => cr1_set_rxdmaen(w, on), None => w };
        let w: u32 = match self.sbc { Some(on) => cr1_set_sbc(w, on), None => w };
        let w: u32 = match self.nostretch { Some(on) => cr1_set_nostretch(w, on), None => w };
        match self.gcen { Some(on) => cr1_set_gcen(w, on), None => w }
    }
}

/// A partial update of control register 2.
#[derive(Clone, Copy, Debug, PartialEq, Eq)]
pub struct Cr2Update {
    pub sadd: Option<u16>,
    pub dir: Option<Direction>,
    pub add10: Option<AddressMode>,
    pub start: Option<bool>,
    pub stop: Option<bool>,
    pub nack: Option<bool>,
    pub nbytes: Option<u8>,
    pub reload: Option<bool>,
    pub autoend: Option<Stop>,
}

impl Cr2Update {
    /// The update that changes nothing.
    pub open spec fn spec_keep() -> Cr2Update {
        Cr2Update {
            sadd: None,
            dir: None,
            add10: None,
            start: None,
            stop: None,
            nack: None,
            nbytes: None,
            reload: None,
            autoend: None,
        }
    }

    /// The update that changes nothing.
    #[verifier::when_used_as_spec(spec_keep)]
    pub fn keep() -> (u: Cr2Update)
        ensures
            u == Self::spec_keep(),
    {
        Cr2Update {
            sadd: None,
            dir: None,
            add10: None,
            start: None,
            stop: None,
            nack: None,
            nbytes: None,
            reload: None,
            autoend: None,
        }
    }

    /// The register word after the update.
    pub open spec fn apply_spec(self, word: u32) -> u32 {
        let w = match self.sadd {
            Some(v) => field_set(word, 0, 0x03ff, v as u32),
            None => word,
        };
        let w = match self.dir {
            Some(v) => field_set(w, 10, 0x01, direction_bits(v)),
            None => w,
        };
        let w = match self.add10 {
            Some(v) => field_set(w, 11, 0x01, address_mode_bits(v)),
            None => w,
        };
        let w = bit_put(w, 13, self.start);
        let w = bit_put(w, 14, self.stop);
        let w = bit_put(w, 15, self.nack);
        let w = match self.nbytes {
            Some(v) => field_set(w, 16, 0xff, v as u32),
            None => w,
        };
        let w = bit_put(w, 24, self.reload);
        match self.autoend {
            Some(v) => field_set(w, 25, 0x01, stop_bits(v)),
            None => w,
        }
    }

    /// Applies the update to a register word.
    pub fn apply(&self, word: u32) -> (r: u32)
        ensures
            r == self.apply_spec(word),
    {
        let w: u32 = match self.sadd { Some(v) => cr2_set_sadd(word, v), None => word };
        let w: u32 = match self.dir { Some(v) => cr2_set_dir(w, v), None => w };
        let w: u32 = match self.add10 { Some(v) => cr2_set_add10(w, v), None => w };
        let w: u32 = match self.start { Some(on) => cr2_set_start(w, on), None => w };
        let w: u32 = match self.stop { Some(on) => cr2_set_stop(w, on), None => w };
        let w: u32 = match self.nack { Some(on) => cr2_set_nack(w, on), None => w };
        let w: u32 = match self.nbytes { Some(v) => cr2_set_nbytes(w, v), None => w };
        let w: u32 = match self.reload { Some(on) => cr2_set_reload(w, on), None => w };
        match self.autoend { Some(v) => cr2_set_autoend(w, v), None => w }
    }
}

/// A flag of the status register that software clears.
#[derive(Clone, Copy, Debug, PartialEq, Eq)]
pub enum Flag {
    /// Address matched.
    Addr,
    /// Not acknowledged.
    Nack,
    /// Stop detected.
    Stop,
    /// Bus error.
    Berr,
    /// Arbitration lost.
    Arlo,
}

impl Flag {
    /// The bit of the flag in the interrupt clear register.
    pub open spec fn bit(self) -> u32 {
        match self {
            Flag::Addr => 3,
            Flag::Nack => 4,
            Flag::Stop => 5,
            Flag::Berr => 8,
            Flag::Arlo => 9,
        }
    }

    /// The word that clears the flag, and no other, when written to the
    /// interrupt clear register.
    pub open spec fn clear_word_spec(self) -> u32 {
        bit_set(0, self.bit(), true)
    }

    /// Builds the word that clears the flag.
    pub fn clear_word(&self) -> (w: u32)
        ensures
            w == self.clear_word_spec(),
    {
        match self {
            Flag::Addr => icr_set_addrcf(0, true),
            Flag::Nack => icr_set_nackcf(0, true),
            Flag::Stop => icr_set_stopcf(0, true),
            Flag::Berr => icr_set_berrcf(0, true),
            Flag::Arlo => icr_set_arlocf(0, true),
        }
    }
}

/// The status word with the transmit-empty bit set, which flushes the
/// transmit register.
pub open spec fn flush_word_spec(word: u32) -> u32 {
    bit_set(word, 0, true)
}

/// Sets the transmit-empty bit of a status word.
pub fn flush_word(word: u32) -> (r: u32)
    ensures
        r == flush_word_spec(word),
{
    isr_set_txe(word, true)
}

/// The transmit register word for a data byte.
pub open spec fn transmit_word_spec(byte: u8) -> u32 {
    field_set(0, 0, 0xff, byte as u32)
}

/// Builds the transmit register word for a data byte.
pub fn transmit_word(byte: u8) -> (r: u32)
    ensures
        r == transmit_word_spec(byte),
{
    txdr_set_txdata(0, byte)
}

/// What is written to the timing register. The clock periods are left at
/// zero where the device only ever answers as a slave.
#[derive(Clone, Copy, Debug, PartialEq, Eq)]
pub struct TimingWrite {
    pub presc: u8,
    pub periods: Option<(u8, u8)>,
    pub sdadel: u8,
    pub scldel: u8,
}

impl TimingWrite {
    /// The timing register word.
    pub open spec fn word_spec(self) -> u32 {
        let w = field_set(0, 28, 0x0f, self.presc as u32);
        let w = match self.periods {
            Some((scll, sclh)) => field_set(field_set(w, 0, 0xff, scll as u32), 8, 0xff, sclh as u32),
            None => w,
        };
        let w = field_set(w, 16, 0x0f, self.sdadel as u32);
        field_set(w, 20, 0x0f, self.scldel as u32)
    }

    /// Packs the timing register word.
    pub fn word(&self) -> (r: u32)
        ensures
            r == self.word_spec(),
    {
        let w: u32 = timingr_set_presc(0, self.presc);
        let w: u32 = match self.periods {
            Some((scll, sclh)) => timingr_set_sclh(timingr_set_scll(w, scll), sclh),
            None => w,
        };
        let w: u32 = timingr_set_sdadel(w, self.sdadel);
        timingr_set_scldel(w, self.scldel)
    }
}

/// The word for own address register 1: the address in its field, a
/// seven-bit one shifted up by one, the width, and the enable bit.
pub open spec fn own_address_word_spec(oa1: OwnAddress) -> u32 {
    let w = bit_set(0, 15, false);
    let w = match oa1 {
        OwnAddress::SevenBit(addr) => field_set(
            field_set(w, 0, 0x03ff, (addr << 1) as u32),
            10,
            0x01,
            address_mode_bits(AddressMode::Bit7),
        ),
        OwnAddress::TenBit(addr) => field_set(
            field_set(w, 0, 0x03ff, addr as u32),
            10,
            0x01,
            address_mode_bits(AddressMode::Bit10),
        ),
    };
    bit_set(w, 15, true)
}

/// Packs the word for own address register 1.
pub fn own_address_word(oa1: OwnAddress) -> (r: u32)
    ensures
        r == own_address_word_spec(oa1),
{
    let w: u32 = oar1_set_oa1en(0, false);
    let w: u32 = match oa1 {
        OwnAddress::SevenBit(addr) => {
            let shifted: u8 = addr << 1;
            oar1_set_oa1mode(oar1_set_oa1(w, shifted as u16), AddressMode::Bit7)
        },
        OwnAddress::TenBit(addr) => oar1_set_oa1mode(oar1_set_oa1(w, addr), AddressMode::Bit10),
    };
    oar1_set_oa1en(w, true)
}

/// The word for own address register 2: the mask, the address shifted up by
/// one, and the enable bit.
pub open spec fn second_address_word_spec(oa2: OA2) -> u32 {
    let w = bit_set(0, 15, false);
    let w = field_set(w, 8, 0x07, mask_bits(oa2.mask));
    let w = field_set(w, 1, 0x7f, (oa2.addr << 1) as u32);
    bit_set(w, 15, true)
}

/// Packs the word for own address register 2.
pub fn second_address_word(oa2: OA2) -> (r: u32)
    ensures
        r == second_address_word_spec(oa2),
{
    let w: u32 = oar2_set_oa2en(0, false);
    let w: u32 = oar2_set_oa2msk(w, oa2.mask);
    let shifted: u8 = oa2.addr << 1;
    let w: u32 = oar2_set_oa2(w, shifted);
    oar2_set_oa2en(w, true)
}

/// Setting one bit of a word shows in that bit and in no other.
pub proof fn lemma_bit_set_get(word: u32, i: u32, j: u32, val: bool)
    requires
        i < 32,
        j < 32,
    ensures
        bit_get(bit_set(word, i, val), j) == (if i == j {
            val
        } else {
            bit_get(word, j)
        }),
{
    let v: u32 = if val {
        1
    } else {
        0
    };
    assert(((((word & !(1u32 << i)) | ((v & 1u32) << i)) >> j) & 1u32 != 0) == (if i == j {
        v == 1
    } else {
        (word >> j) & 1u32 != 0
    })) by (bit_vector)
        requires
            i < 32,
            j < 32,
            v == 0 || v == 1,
    ;
}

/// After an update of control register 1 that switches off the completion
/// interrupt and the DMA requests of one direction, the register shows both
/// disabled, whatever it held.
pub proof fn lemma_enables_off(update: Cr1Update, word: u32, transmit: bool)
    requires
        update == (if transmit {
            Cr1Update { txdmaen: Some(false), tcie: Some(false), ..Cr1Update::keep() }
        } else {
            Cr1Update { rxdmaen: Some(false), tcie: Some(false), ..Cr1Update::keep() }
        }),
    ensures
        !bit_get(update.apply_spec(word), 6),
        transmit ==> !bit_get(update.apply_spec(word), 14),
        !transmit ==> !bit_get(update.apply_spec(word), 15),
{
    let first = bit_set(word, 6, false);
    lemma_bit_set_get(word, 6, 6, false);
    if transmit {
        lemma_bit_set_get(first, 14, 6, false);
        lemma_bit_set_get(first, 14, 14, false);
    } else {
        lemma_bit_set_get(first, 15, 6, false);
        lemma_bit_set_get(first, 15, 15, false);
    }
}

} // verus!
