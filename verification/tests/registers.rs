use stm32_i2c::chunk::{chunk_at, Chunk};
use stm32_i2c::engine::{Op, Register};
use stm32_i2c::interrupt::on_interrupt;
use stm32_i2c::regs::{
    decode_data, decode_start, flush_word, own_address_word, second_address_word, transmit_word,
    Cr1Update, Cr2Update, Flag, Status, TimingWrite,
};
use stm32_i2c::types::{AddrMask, AddressMode, Direction, OwnAddress, Stop, OA2};
use stm32_metapac::i2c::regs::{Cr1, Cr2, Isr, Oar1, Oar2, Timingr};
use stm32_metapac::i2c::vals::{Addmode, Autoend, Dir, Oamsk, Reload};

fn quiet() -> Status {
    Status {
        txe: false,
        txis: false,
        rxne: false,
        addr: false,
        nackf: false,
        stopf: false,
        tc: false,
        tcr: false,
        berr: false,
        arlo: false,
        ovr: false,
        dir: Direction::Write,
        addcode: 0,
    }
}

#[test]
fn status_decodes_each_flag() {
    assert_eq!(Status::decode(0), quiet());
    assert_eq!(Status::decode(1 << 0), Status { txe: true, ..quiet() });
    assert_eq!(Status::decode(1 << 1), Status { txis: true, ..quiet() });
    assert_eq!(Status::decode(1 << 2), Status { rxne: true, ..quiet() });
    assert_eq!(Status::decode(1 << 3), Status { addr: true, ..quiet() });
    assert_eq!(Status::decode(1 << 4), Status { nackf: true, ..quiet() });
    assert_eq!(Status::decode(1 << 5), Status { stopf: true, ..quiet() });
    assert_eq!(Status::decode(1 << 6), Status { tc: true, ..quiet() });
    assert_eq!(Status::decode(1 << 7), Status { tcr: true, ..quiet() });
    assert_eq!(Status::decode(1 << 8), Status { berr: true, ..quiet() });
    assert_eq!(Status::decode(1 << 9), Status { arlo: true, ..quiet() });
    assert_eq!(Status::decode(1 << 10), Status { ovr: true, ..quiet() });
    assert_eq!(Status::decode(1 << 16), Status { dir: Direction::Read, ..quiet() });
    assert_eq!(Status::decode(0x5a << 17), Status { addcode: 0x5a, ..quiet() });
}

#[test]
fn status_ignores_other_bits() {
    // Bits 11 to 15 and 24 to 31 belong to no field read here.
    assert_eq!(Status::decode(0xff00_f800), quiet());
    let all = Status::decode(0xffff_ffff);
    assert!(all.txe && all.txis && all.rxne && all.addr && all.nackf && all.stopf);
    assert!(all.tc && all.tcr && all.berr && all.arlo && all.ovr);
    assert_eq!(all.dir, Direction::Read);
    assert_eq!(all.addcode, 0x7f);
}

#[test]
fn status_agrees_with_the_register_type() {
    for word in [0u32, 0x0001_0008, 0x00a2_00c5, 0xffff_ffff, 0x1234_5678] {
        let reg = Isr(word);
        let status = Status::decode(word);
        assert_eq!(status.txe, reg.txe());
        assert_eq!(status.txis, reg.txis());
        assert_eq!(status.rxne, reg.rxne());
        assert_eq!(status.addr, reg.addr());
        assert_eq!(status.nackf, reg.nackf());
        assert_eq!(status.stopf, reg.stopf());
        assert_eq!(status.tc, reg.tc());
        assert_eq!(status.tcr, reg.tcr());
        assert_eq!(status.berr, reg.berr());
        assert_eq!(status.arlo, reg.arlo());
        assert_eq!(status.ovr, reg.ovr());
        assert_eq!(status.dir == Direction::Read, reg.dir() == Dir::READ);
        assert_eq!(status.addcode, reg.addcode());
    }
}

#[test]
fn start_bit_is_bit_thirteen() {
    assert!(decode_start(1 << 13));
    assert!(!decode_start(!(1u32 << 13)));
    assert!(!decode_start(0));
}

#[test]
fn received_byte_is_the_low_byte() {
    assert_eq!(decode_data(0xffff_ff00), 0);
    assert_eq!(decode_data(0x0000_01a7), 0xa7);
}

#[test]
fn cr1_update_sets_each_field() {
    let keep = Cr1Update::keep();
    assert_eq!(keep.apply(0x1234_5678), 0x1234_5678);
    assert_eq!(Cr1Update { pe: Some(true), ..keep }.apply(0), 1 << 0);
    assert_eq!(Cr1Update { txie: Some(true), ..keep }.apply(0), 1 << 1);
    assert_eq!(Cr1Update { addrie: Some(true), ..keep }.apply(0), 1 << 3);
    assert_eq!(Cr1Update { stopie: Some(true), ..keep }.apply(0), 1 << 5);
    assert_eq!(Cr1Update { tcie: Some(true), ..keep }.apply(0), 1 << 6);
    assert_eq!(Cr1Update { anfoff: Some(true), ..keep }.apply(0), 1 << 12);
    assert_eq!(Cr1Update { txdmaen: Some(true), ..keep }.apply(0), 1 << 14);
    assert_eq!(Cr1Update { rxdmaen: Some(true), ..keep }.apply(0), 1 << 15);
    assert_eq!(Cr1Update { sbc: Some(true), ..keep }.apply(0), 1 << 16);
    assert_eq!(Cr1Update { nostretch: Some(true), ..keep }.apply(0), 1 << 17);
    assert_eq!(Cr1Update { gcen: Some(true), ..keep }.apply(0), 1 << 19);
}

#[test]
fn cr1_update_clears_each_field() {
    let keep = Cr1Update::keep();
    let ones = 0xffff_ffffu32;
    assert_eq!(Cr1Update { pe: Some(false), ..keep }.apply(ones), !(1 << 0));
    assert_eq!(Cr1Update { txie: Some(false), ..keep }.apply(ones), !(1 << 1));
    assert_eq!(Cr1Update { addrie: Some(false), ..keep }.apply(ones), !(1 << 3));
    assert_eq!(Cr1Update { stopie: Some(false), ..keep }.apply(ones), !(1 << 5));
    assert_eq!(Cr1Update { tcie: Some(false), ..keep }.apply(ones), !(1 << 6));
    assert_eq!(Cr1Update { anfoff: Some(false), ..keep }.apply(ones), !(1 << 12));
    assert_eq!(Cr1Update { txdmaen: Some(false), ..keep }.apply(ones), !(1 << 14));
    assert_eq!(Cr1Update { rxdmaen: Some(false), ..keep }.apply(ones), !(1 << 15));
    assert_eq!(Cr1Update { sbc: Some(false), ..keep }.apply(ones), !(1 << 16));
    assert_eq!(Cr1Update { nostretch: Some(false), ..keep }.apply(ones), !(1 << 17));
    assert_eq!(Cr1Update { gcen: Some(false), ..keep }.apply(ones), !(1 << 19));
}

#[test]
fn cr1_update_agrees_with_the_register_type() {
    let update = Cr1Update {
        nostretch: Some(false),
        gcen: Some(true),
        sbc: Some(true),
        pe: Some(true),
        ..Cr1Update::keep()
    };
    let mut reg = Cr1(0x0002_0040);
    reg.set_nostretch(false);
    reg.set_gcen(true);
    reg.set_sbc(true);
    reg.set_pe(true);
    assert_eq!(update.apply(0x0002_0040), reg.0);
    assert_eq!(update.apply(0x0002_0040), 0x0009_0041);
}

#[test]
fn cr2_update_sets_each_field() {
    let keep = Cr2Update::keep();
    assert_eq!(keep.apply(0x8765_4321), 0x8765_4321);
    assert_eq!(Cr2Update { sadd: Some(0x3ff), ..keep }.apply(0), 0x3ff);
    assert_eq!(Cr2Update { sadd: Some(0xffff), ..keep }.apply(0), 0x3ff);
    assert_eq!(Cr2Update { dir: Some(Direction::Read), ..keep }.apply(0), 1 << 10);
    assert_eq!(Cr2Update { dir: Some(Direction::Write), ..keep }.apply(1 << 10), 0);
    assert_eq!(Cr2Update { add10: Some(AddressMode::Bit10), ..keep }.apply(0), 1 << 11);
    assert_eq!(Cr2Update { add10: Some(AddressMode::Bit7), ..keep }.apply(1 << 11), 0);
    assert_eq!(Cr2Update { start: Some(true), ..keep }.apply(0), 1 << 13);
    assert_eq!(Cr2Update { stop: Some(true), ..keep }.apply(0), 1 << 14);
    assert_eq!(Cr2Update { nack: Some(true), ..keep }.apply(0), 1 << 15);
    assert_eq!(Cr2Update { nack: Some(false), ..keep }.apply(0xffff_ffff), !(1 << 15));
    assert_eq!(Cr2Update { nbytes: Some(0xab), ..keep }.apply(0), 0xab << 16);
    assert_eq!(Cr2Update { nbytes: Some(0), ..keep }.apply(0xffff_ffff), 0xff00_ffff);
    assert_eq!(Cr2Update { reload: Some(true), ..keep }.apply(0), 1 << 24);
    assert_eq!(Cr2Update { reload: Some(false), ..keep }.apply(1 << 24), 0);
    assert_eq!(Cr2Update { autoend: Some(Stop::Automatic), ..keep }.apply(0), 1 << 25);
    assert_eq!(Cr2Update { autoend: Some(Stop::Software), ..keep }.apply(1 << 25), 0);
}

#[test]
fn cr2_update_agrees_with_the_register_type() {
    let update = Cr2Update {
        sadd: Some(0xa0),
        add10: Some(AddressMode::Bit7),
        dir: Some(Direction::Read),
        nbytes: Some(255),
        start: Some(true),
        autoend: Some(Stop::Automatic),
        reload: Some(true),
        ..Cr2Update::keep()
    };
    let mut reg = Cr2(0x0000_4c00);
    reg.set_sadd(0xa0);
    reg.set_add10(Addmode::BIT7);
    reg.set_dir(Dir::READ);
    reg.set_nbytes(255);
    reg.set_start(true);
    reg.set_autoend(Autoend::AUTOMATIC);
    reg.set_reload(Reload::NOT_COMPLETED);
    assert_eq!(update.apply(0x0000_4c00), reg.0);
    assert_eq!(update.apply(0x0000_4c00), 0x03ff_64a0);
}

#[test]
fn each_flag_has_its_clear_bit() {
    assert_eq!(Flag::Addr.clear_word(), 1 << 3);
    assert_eq!(Flag::Nack.clear_word(), 1 << 4);
    assert_eq!(Flag::Stop.clear_word(), 1 << 5);
    assert_eq!(Flag::Berr.clear_word(), 1 << 8);
    assert_eq!(Flag::Arlo.clear_word(), 1 << 9);
}

#[test]
fn flush_sets_transmit_empty() {
    assert_eq!(flush_word(0), 1);
    assert_eq!(flush_word(0x0000_8010), 0x0000_8011);
}

#[test]
fn transmit_word_holds_the_byte() {
    assert_eq!(transmit_word(0), 0);
    assert_eq!(transmit_word(0xc3), 0xc3);
}

#[test]
fn timing_word_packs_all_fields() {
    let full = TimingWrite { presc: 0x3, periods: Some((0x13, 0x0f)), sdadel: 0x2, scldel: 0x4 };
    assert_eq!(full.word(), 0x3042_0f13);
    let mut reg = Timingr(0);
    reg.set_presc(0x3);
    reg.set_scll(0x13);
    reg.set_sclh(0x0f);
    reg.set_sdadel(0x2);
    reg.set_scldel(0x4);
    assert_eq!(full.word(), reg.0);
}

#[test]
fn timing_word_cuts_delays_to_four_bits() {
    let wide = TimingWrite { presc: 0x1f, periods: None, sdadel: 24, scldel: 95 };
    assert_eq!(wide.word(), 0xf0f8_0000);
}

#[test]
fn slave_timing_word_leaves_the_periods_zero() {
    let slave = TimingWrite { presc: 1, periods: None, sdadel: 2, scldel: 4 };
    assert_eq!(slave.word(), 0x1042_0000);
}

#[test]
fn own_address_word_for_seven_bits() {
    assert_eq!(own_address_word(OwnAddress::SevenBit(0x10)), 0x0000_8020);
    let mut reg = Oar1(0);
    reg.set_oa1en(false);
    reg.set_oa1(0x20);
    reg.set_oa1mode(Addmode::BIT7);
    reg.set_oa1en(true);
    assert_eq!(own_address_word(OwnAddress::SevenBit(0x10)), reg.0);
    // The shift drops the top bit of the byte.
    assert_eq!(own_address_word(OwnAddress::SevenBit(0xff)), 0x0000_80fe);
}

#[test]
fn own_address_word_for_ten_bits() {
    assert_eq!(own_address_word(OwnAddress::TenBit(0x2a5)), 0x0000_86a5);
    assert_eq!(own_address_word(OwnAddress::TenBit(0xffff)), 0x0000_87ff);
}

#[test]
fn second_address_word_packs_mask_and_address() {
    let oa2 = OA2 { addr: 0x21, mask: AddrMask::Mask3 };
    assert_eq!(second_address_word(oa2), 0x0000_8384);
    let mut reg = Oar2(0);
    reg.set_oa2en(false);
    reg.set_oa2msk(Oamsk::MASK3);
    reg.set_oa2(0x21 << 1);
    reg.set_oa2en(true);
    assert_eq!(second_address_word(oa2), reg.0);
}

#[test]
fn second_address_word_for_each_mask() {
    let masks = [
        AddrMask::NoMask,
        AddrMask::Mask1,
        AddrMask::Mask2,
        AddrMask::Mask3,
        AddrMask::Mask4,
        AddrMask::Mask5,
        AddrMask::Mask6,
        AddrMask::Mask7,
    ];
    for (bits, mask) in masks.iter().enumerate() {
        let word = second_address_word(OA2 { addr: 0, mask: *mask });
        assert_eq!(word, 0x8000 | ((bits as u32) << 8));
    }
}

#[test]
fn command_words_follow_their_kind() {
    let update = Cr1Update { tcie: Some(true), ..Cr1Update::keep() };
    let modify = Op::ModifyCr1(update);
    assert_eq!(modify.register(), Some(Register::Cr1));
    assert!(modify.modifies());
    assert_eq!(modify.word(0x8000), 0x8040);

    let stop = Op::WriteCr2(Cr2Update { stop: Some(true), ..Cr2Update::keep() });
    assert_eq!(stop.register(), Some(Register::Cr2));
    assert!(!stop.modifies());
    // A write starts from zero, whatever the register held.
    assert_eq!(stop.word(0xffff_ffff), 1 << 14);

    let program = Op::ModifyCr2(Cr2Update { nbytes: Some(7), ..Cr2Update::keep() });
    assert_eq!(program.register(), Some(Register::Cr2));
    assert!(program.modifies());
    assert_eq!(program.word(0x00ff_2000), 0x0007_2000);

    assert_eq!(Op::FlushTransmit.register(), Some(Register::Isr));
    assert!(Op::FlushTransmit.modifies());
    assert_eq!(Op::FlushTransmit.word(0x20), 0x21);

    assert_eq!(Op::WriteIcr(Flag::Stop).register(), Some(Register::Icr));
    assert_eq!(Op::WriteIcr(Flag::Stop).word(0xffff), 0x20);
    assert_eq!(Op::WriteTxdr(0x5a).register(), Some(Register::Txdr));
    assert_eq!(Op::WriteTxdr(0x5a).word(0xffff), 0x5a);

    let timing = TimingWrite { presc: 1, periods: Some((2, 3)), sdadel: 4, scldel: 5 };
    assert_eq!(Op::WriteTimingr(timing).register(), Some(Register::Timingr));
    assert_eq!(Op::WriteTimingr(timing).word(0), 0x1054_0302);
    assert_eq!(Op::WriteOar1(OwnAddress::SevenBit(1)).register(), Some(Register::Oar1));
    assert_eq!(Op::WriteOar1(OwnAddress::SevenBit(1)).word(0), 0x8002);
    let oa2 = OA2 { addr: 1, mask: AddrMask::NoMask };
    assert_eq!(Op::WriteOar2(oa2).register(), Some(Register::Oar2));
    // The address is shifted up once by the engine and once more into its field.
    assert_eq!(Op::WriteOar2(oa2).word(0), 0x8004);
}

#[test]
fn dma_commands_go_to_no_register() {
    for op in [Op::StartDmaRead { len: 4 }, Op::StartDmaWrite { buffer: 0, len: 4 }, Op::StopDma] {
        assert_eq!(op.register(), None);
        assert!(!op.modifies());
        assert_eq!(op.word(0x1234), 0x1234);
    }
}

#[test]
fn stop_policy_maps_to_autoend() {
    assert!(Stop::Automatic.autoend());
    assert!(!Stop::Software.autoend());
}

#[test]
fn chunks_are_cut_at_255_bytes() {
    assert_eq!(chunk_at(0, 0, true), Chunk { size: 0, reload: false });
    assert_eq!(chunk_at(1, 0, true), Chunk { size: 1, reload: false });
    assert_eq!(chunk_at(255, 0, true), Chunk { size: 255, reload: false });
    assert_eq!(chunk_at(256, 0, true), Chunk { size: 255, reload: true });
    assert_eq!(chunk_at(256, 255, true), Chunk { size: 1, reload: false });
    assert_eq!(chunk_at(300, 0, true), Chunk { size: 255, reload: true });
    assert_eq!(chunk_at(300, 255, true), Chunk { size: 45, reload: false });
    assert_eq!(chunk_at(510, 255, true), Chunk { size: 255, reload: false });
    assert_eq!(chunk_at(300, 300, true), Chunk { size: 0, reload: false });
}

#[test]
fn chunks_of_a_buffer_that_is_not_the_last_keep_reload() {
    assert_eq!(chunk_at(10, 0, false), Chunk { size: 10, reload: true });
    assert_eq!(chunk_at(300, 255, false), Chunk { size: 45, reload: true });
    assert_eq!(chunk_at(0, 0, false), Chunk { size: 0, reload: true });
}

#[test]
fn interrupt_wakes_on_completion_match_stop_and_overrun() {
    for bit in [7u32, 6, 3, 5, 10] {
        assert!(on_interrupt(1 << bit).0);
    }
    for bit in [0u32, 1, 2, 4, 8, 9, 16, 17] {
        assert!(!on_interrupt(1 << bit).0);
    }
    assert!(!on_interrupt(0).0);
}

#[test]
fn interrupt_always_silences_its_enables() {
    let quiet = Op::ModifyCr1(Cr1Update {
        tcie: Some(false),
        addrie: Some(false),
        stopie: Some(false),
        ..Cr1Update::keep()
    });
    assert_eq!(on_interrupt(0).1, quiet);
    assert_eq!(on_interrupt(1 << 6).1, quiet);
    // Bits 3, 5 and 6 go off, the others stay.
    assert_eq!(quiet.word(0xffff_ffff), 0xffff_ff97);
}
