use stm32_i2c::engine::{Input, Op, Request};
use stm32_i2c::regs::{Cr1Update, Cr2Update, Flag, TimingWrite};
use stm32_i2c::slave::{combine_ten_bit, is_ten_bit_header, I2cSlave, SlaveReply};
use stm32_i2c::types::{
    AddrMask, Command, CommandKind, Error, Hertz, OwnAddress, OwnAddresses, ReceiveStatus,
    SendStatus, SlaveConfig, OA2,
};

const ADDR: u32 = 1 << 3;
const STOPF: u32 = 1 << 5;
const RXNE: u32 = 1 << 2;
const DIR_READ: u32 = 1 << 16;

fn code(address: u8) -> u32 {
    (address as u32) << 17
}

fn listen_on() -> Op {
    Op::ModifyCr1(Cr1Update { addrie: Some(true), ..Cr1Update::keep() })
}

fn receive_enables(on: bool) -> Op {
    Op::ModifyCr1(Cr1Update { rxdmaen: Some(on), stopie: Some(on), ..Cr1Update::keep() })
}

fn send_enables(on: bool) -> Op {
    Op::ModifyCr1(Cr1Update {
        txdmaen: Some(on),
        txie: Some(on),
        stopie: Some(on),
        ..Cr1Update::keep()
    })
}

fn nack(on: bool) -> Op {
    Op::ModifyCr2(Cr2Update { nack: Some(on), ..Cr2Update::keep() })
}

fn count(n: u8) -> Op {
    Op::ModifyCr2(Cr2Update { nbytes: Some(n), ..Cr2Update::keep() })
}

#[test]
fn new_slave_is_idle() {
    let mut slave = I2cSlave::new();
    let step = slave.advance(Input::Woken);
    assert!(step.ops.is_empty());
    assert_eq!(step.request, Request::Idle);
    assert!(slave.cancel().is_empty());
}

#[test]
fn listen_sleeps_until_an_address_matches() {
    let mut slave = I2cSlave::new();
    let step = slave.listen();
    assert_eq!(step.ops, vec![listen_on()]);
    assert_eq!(step.request, Request::ReadIsr);
    let step = slave.advance(Input::Word(STOPF | RXNE));
    assert!(step.ops.is_empty());
    assert_eq!(step.request, Request::Suspend);
    // Listening has no deadline.
    let step = slave.advance(Input::Expired(true));
    assert!(step.ops.is_empty());
    assert_eq!(step.request, Request::Suspend);
    let step = slave.advance(Input::Woken);
    assert!(step.ops.is_empty());
    assert_eq!(step.request, Request::ReadIsr);
}

#[test]
fn match_for_a_write_clears_the_flag_at_once() {
    let mut slave = I2cSlave::new();
    slave.listen();
    let step = slave.advance(Input::Word(ADDR | code(0x10)));
    assert_eq!(step.ops, vec![Op::WriteIcr(Flag::Addr)]);
    assert_eq!(step.request, Request::ReadIsr);
    let step = slave.advance(Input::Word(code(0x10)));
    assert!(step.ops.is_empty());
    assert_eq!(
        step.request,
        Request::Finish(Ok(SlaveReply::Command(Command {
            kind: CommandKind::SlaveReceive,
            address: OwnAddress::SevenBit(0x10),
        })))
    );
}

#[test]
fn match_for_a_read_leaves_the_flag_set() {
    let mut slave = I2cSlave::new();
    slave.listen();
    let step = slave.advance(Input::Word(ADDR | DIR_READ | code(0x2a)));
    assert!(step.ops.is_empty());
    assert_eq!(step.request, Request::ReadIsr);
    let step = slave.advance(Input::Word(ADDR | DIR_READ | code(0x2a)));
    assert!(step.ops.is_empty());
    assert_eq!(
        step.request,
        Request::Finish(Ok(SlaveReply::Command(Command {
            kind: CommandKind::SlaveSend,
            address: OwnAddress::SevenBit(0x2a),
        })))
    );
    // The flag is cleared only by the answer, once the DMA engine runs.
    let step = slave.respond_to_send(2);
    assert_eq!(step.ops[2], Op::StartDmaWrite { buffer: 0, len: 2 });
    assert_eq!(step.ops[3], Op::WriteIcr(Flag::Addr));
}

#[test]
fn match_code_is_taken_from_the_second_read() {
    let mut slave = I2cSlave::new();
    slave.listen();
    slave.advance(Input::Word(ADDR | code(0x10)));
    let step = slave.advance(Input::Word(code(0x7f)));
    assert_eq!(
        step.request,
        Request::Finish(Ok(SlaveReply::Command(Command {
            kind: CommandKind::SlaveReceive,
            address: OwnAddress::SevenBit(0x7f),
        })))
    );
}

#[test]
fn ten_bit_header_and_address() {
    // Seven-bit match codes: header 11110, then the two high address bits.
    assert!(is_ten_bit_header(0b111_1000));
    assert!(is_ten_bit_header(0b111_1001));
    assert!(is_ten_bit_header(0b111_1011));
    assert!(!is_ten_bit_header(0b111_1100));
    assert!(!is_ten_bit_header(0b111_0111));
    assert!(!is_ten_bit_header(0b011_1100));
    assert!(!is_ten_bit_header(0x7f));
    assert!(!is_ten_bit_header(0));
    assert!(!is_ten_bit_header(0b1111_0000));
    assert_eq!(combine_ten_bit(0b111_1001, 0x34), 0x1e74);
    assert_eq!(combine_ten_bit(0b111_1000, 0xa5), 0x1ea5);
    assert_eq!(combine_ten_bit(0, 0xff), 0xff);
    assert_eq!(combine_ten_bit(0xff, 0), 0x3fc0);
}

#[test]
fn ten_bit_match_reads_the_low_byte() {
    let mut slave = I2cSlave::new();
    slave.listen();
    let step = slave.advance(Input::Word(ADDR | code(0b111_1001)));
    assert_eq!(step.ops, vec![Op::WriteIcr(Flag::Addr)]);
    assert_eq!(step.request, Request::ReadIsr);
    // The match code is that of a ten-bit address: the low byte is waited for.
    let step = slave.advance(Input::Word(code(0b111_1001)));
    assert!(step.ops.is_empty());
    assert_eq!(step.request, Request::ReadIsr);
    let step = slave.advance(Input::Word(0));
    assert!(step.ops.is_empty());
    assert_eq!(step.request, Request::CheckDeadline);
    let step = slave.advance(Input::Expired(false));
    assert_eq!(step.request, Request::ReadIsr);
    let step = slave.advance(Input::Word(RXNE));
    assert!(step.ops.is_empty());
    assert_eq!(step.request, Request::ReadRxdr);
    let step = slave.advance(Input::Word(0x34));
    assert!(step.ops.is_empty());
    assert_eq!(
        step.request,
        Request::Finish(Ok(SlaveReply::Command(Command {
            kind: CommandKind::SlaveReceive,
            address: OwnAddress::TenBit(0x1e74),
        })))
    );
}

#[test]
fn ten_bit_match_for_a_read_leaves_the_flag_set() {
    let mut slave = I2cSlave::new();
    slave.listen();
    let step = slave.advance(Input::Word(ADDR | DIR_READ | code(0b111_1010)));
    assert!(step.ops.is_empty());
    slave.advance(Input::Word(ADDR | DIR_READ | code(0b111_1010)));
    slave.advance(Input::Word(RXNE));
    let step = slave.advance(Input::Word(0xff));
    assert!(step.ops.is_empty());
    assert_eq!(
        step.request,
        Request::Finish(Ok(SlaveReply::Command(Command {
            kind: CommandKind::SlaveSend,
            address: OwnAddress::TenBit(0x1eff),
        })))
    );
}

#[test]
fn ten_bit_match_times_out_without_the_low_byte() {
    let mut slave = I2cSlave::new();
    slave.listen();
    slave.advance(Input::Word(ADDR | code(0b111_1000)));
    slave.advance(Input::Word(code(0b111_1000)));
    let step = slave.advance(Input::Word(0));
    assert_eq!(step.request, Request::CheckDeadline);
    let step = slave.advance(Input::Expired(true));
    assert!(step.ops.is_empty());
    assert_eq!(step.request, Request::Finish(Err(Error::Timeout)));
}

#[test]
fn respond_to_receive_until_stop() {
    let mut slave = I2cSlave::new();
    let step = slave.respond_to_receive(16);
    assert_eq!(
        step.ops,
        vec![receive_enables(true), Op::StartDmaRead { len: 16 }, Op::WriteIcr(Flag::Addr)]
    );
    assert_eq!(step.request, Request::ReadIsr);
    let step = slave.advance(Input::Word(RXNE));
    assert!(step.ops.is_empty());
    assert_eq!(step.request, Request::Suspend);
    let step = slave.advance(Input::Woken);
    assert_eq!(step.request, Request::ReadIsr);
    let step = slave.advance(Input::Word(STOPF));
    assert_eq!(step.ops, vec![Op::WriteIcr(Flag::Stop)]);
    assert_eq!(step.request, Request::DmaRemaining);
    // Eleven of sixteen left: five bytes came in.
    let step = slave.advance(Input::Remaining(11));
    assert_eq!(step.ops, vec![Op::StopDma]);
    assert_eq!(step.request, Request::AwaitDma);
    let step = slave.advance(Input::DmaDone);
    assert_eq!(step.ops, vec![receive_enables(false), listen_on()]);
    assert_eq!(step.request, Request::ReadIsr);
    let step = slave.advance(Input::Word(0));
    assert_eq!(step.request, Request::Suspend);
    slave.advance(Input::Woken);
    let step = slave.advance(Input::Word(ADDR));
    assert!(step.ops.is_empty());
    assert_eq!(step.request, Request::Finish(Ok(SlaveReply::Received(ReceiveStatus::Done(5)))));
}

#[test]
fn respond_to_receive_sees_the_bus_turn_around() {
    let mut slave = I2cSlave::new();
    slave.respond_to_receive(4);
    slave.advance(Input::Word(STOPF));
    slave.advance(Input::Remaining(0));
    slave.advance(Input::DmaDone);
    let step = slave.advance(Input::Word(ADDR | DIR_READ));
    assert!(step.ops.is_empty());
    assert_eq!(
        step.request,
        Request::Finish(Ok(SlaveReply::Received(ReceiveStatus::SendRequested(4))))
    );
}

#[test]
fn respond_to_receive_without_a_new_match_is_done_at_the_deadline() {
    let mut slave = I2cSlave::new();
    slave.respond_to_receive(4);
    slave.advance(Input::Word(STOPF));
    slave.advance(Input::Remaining(1));
    slave.advance(Input::DmaDone);
    let step = slave.advance(Input::Word(0));
    assert_eq!(step.request, Request::Suspend);
    let step = slave.advance(Input::Expired(true));
    assert!(step.ops.is_empty());
    assert_eq!(step.request, Request::Finish(Ok(SlaveReply::Received(ReceiveStatus::Done(3)))));
}

#[test]
fn respond_to_receive_times_out_before_stop() {
    let mut slave = I2cSlave::new();
    slave.respond_to_receive(4);
    let step = slave.advance(Input::Word(0));
    assert_eq!(step.request, Request::Suspend);
    let step = slave.advance(Input::Expired(true));
    assert_eq!(step.ops, vec![receive_enables(false)]);
    assert_eq!(step.request, Request::Finish(Err(Error::Timeout)));
}

#[test]
fn received_count_never_goes_below_zero() {
    let mut slave = I2cSlave::new();
    slave.respond_to_receive(4);
    slave.advance(Input::Word(STOPF));
    slave.advance(Input::Remaining(9));
    slave.advance(Input::DmaDone);
    let step = slave.advance(Input::Word(ADDR));
    assert_eq!(step.request, Request::Finish(Ok(SlaveReply::Received(ReceiveStatus::Done(0)))));
}

#[test]
fn respond_to_send_read_in_full_then_stop_is_done() {
    let mut slave = I2cSlave::new();
    let step = slave.respond_to_send(8);
    assert_eq!(
        step.ops,
        vec![
            count(8),
            send_enables(true),
            Op::StartDmaWrite { buffer: 0, len: 8 },
            Op::WriteIcr(Flag::Addr),
            nack(false),
        ]
    );
    assert_eq!(step.request, Request::ReadIsr);
    // No stop yet and the DMA engine still runs: sleep.
    let step = slave.advance(Input::Word(0));
    assert_eq!(step.request, Request::PollDma);
    let step = slave.advance(Input::DmaReady(false));
    assert!(step.ops.is_empty());
    assert_eq!(step.request, Request::Suspend);
    let step = slave.advance(Input::Woken);
    assert_eq!(step.request, Request::ReadIsr);
    let step = slave.advance(Input::Word(STOPF));
    assert_eq!(step.ops, vec![Op::WriteIcr(Flag::Stop)]);
    assert_eq!(step.request, Request::DmaRemaining);
    let step = slave.advance(Input::Remaining(0));
    assert!(step.ops.is_empty());
    assert_eq!(step.request, Request::AwaitDma);
    let step = slave.advance(Input::DmaDone);
    assert_eq!(step.ops, vec![send_enables(false)]);
    assert_eq!(step.request, Request::Finish(Ok(SlaveReply::Sent(SendStatus::Done))));
}

#[test]
fn respond_to_send_stopped_early_reports_leftover() {
    let mut slave = I2cSlave::new();
    slave.respond_to_send(8);
    slave.advance(Input::Word(STOPF));
    let step = slave.advance(Input::Remaining(3));
    assert_eq!(step.ops, vec![Op::StopDma]);
    assert_eq!(step.request, Request::AwaitDma);
    let step = slave.advance(Input::DmaDone);
    assert_eq!(step.ops, vec![send_enables(false)]);
    assert_eq!(step.request, Request::Finish(Ok(SlaveReply::Sent(SendStatus::LeftoverBytes(3)))));
}

#[test]
fn respond_to_send_with_a_short_buffer_asks_for_more() {
    let mut slave = I2cSlave::new();
    slave.respond_to_send(2);
    // No stop condition, and the DMA engine has run out.
    let step = slave.advance(Input::Word(0));
    assert_eq!(step.request, Request::PollDma);
    let step = slave.advance(Input::DmaReady(true));
    assert_eq!(step.ops, vec![nack(true)]);
    assert_eq!(step.request, Request::AwaitDma);
    let step = slave.advance(Input::DmaDone);
    assert_eq!(step.ops, vec![send_enables(false)]);
    assert_eq!(
        step.request,
        Request::Finish(Ok(SlaveReply::Sent(SendStatus::MoreBytesRequested)))
    );
}

#[test]
fn respond_to_send_times_out() {
    let mut slave = I2cSlave::new();
    slave.respond_to_send(2);
    slave.advance(Input::Word(0));
    slave.advance(Input::DmaReady(false));
    let step = slave.advance(Input::Expired(true));
    assert_eq!(step.ops, vec![send_enables(false)]);
    assert_eq!(step.request, Request::Finish(Err(Error::Timeout)));
}

#[test]
fn byte_counter_holds_the_low_eight_bits_of_the_length() {
    let mut slave = I2cSlave::new();
    let step = slave.respond_to_send(300);
    assert_eq!(step.ops[0], count(44));
    assert_eq!(step.ops[0].word(0), 44 << 16);
    let step = slave.respond_to_send(255);
    assert_eq!(step.ops[0], count(255));
}

#[test]
fn slave_ignores_answers_of_another_kind() {
    let mut slave = I2cSlave::new();
    slave.respond_to_send(2);
    for input in [Input::Woken, Input::DmaDone, Input::Remaining(1), Input::Expired(true)] {
        let step = slave.advance(input);
        assert!(step.ops.is_empty());
        assert_eq!(step.request, Request::ReadIsr);
    }
}

#[test]
fn slave_cancel_switches_off_what_was_enabled() {
    let mut slave = I2cSlave::new();
    slave.respond_to_receive(4);
    assert_eq!(slave.cancel(), vec![receive_enables(false)]);
    assert_eq!(slave.advance(Input::Word(STOPF)).request, Request::Idle);

    slave.respond_to_send(4);
    slave.advance(Input::Word(0));
    assert_eq!(slave.cancel(), vec![send_enables(false)]);
    assert_eq!(send_enables(false).word(0xffff_ffff), 0xffff_bfdd);
    assert_eq!(receive_enables(false).word(0xffff_ffff), 0xffff_7fdf);

    slave.listen();
    assert!(slave.cancel().is_empty());
}

#[test]
fn reconfigure_addresses_writes_the_slots_in_use() {
    let mut slave = I2cSlave::new();
    let oa1 = OwnAddress::SevenBit(0x10);
    let oa2 = OA2 { addr: 0x20, mask: AddrMask::Mask1 };
    assert_eq!(slave.reconfigure_addresses(OwnAddresses::OA1(oa1)), vec![Op::WriteOar1(oa1)]);
    assert_eq!(slave.reconfigure_addresses(OwnAddresses::OA2(oa2)), vec![Op::WriteOar2(oa2)]);
    assert_eq!(
        slave.reconfigure_addresses(OwnAddresses::Both { oa1, oa2 }),
        vec![Op::WriteOar1(oa1), Op::WriteOar2(oa2)]
    );
    assert_eq!(Op::WriteOar1(oa1).word(0), 0x8020);
    assert_eq!(Op::WriteOar2(oa2).word(0), 0x8180);
    assert_eq!(Op::WriteOar1(OwnAddress::TenBit(0x123)).word(0), 0x8523);
}

#[test]
fn reconfigure_addresses_leaves_an_operation_alone() {
    let mut slave = I2cSlave::new();
    slave.listen();
    slave.reconfigure_addresses(OwnAddresses::OA1(OwnAddress::SevenBit(0x10)));
    let step = slave.advance(Input::Word(0));
    assert_eq!(step.request, Request::Suspend);
}

#[test]
fn slave_init_programs_timing_without_periods() {
    let mut slave = I2cSlave::new();
    let oa1 = OwnAddress::SevenBit(0x10);
    let config = SlaveConfig { addr: OwnAddresses::OA1(oa1), general_call: true };
    let ops = slave.init(Hertz(48_000_000), Hertz(100_000), config);
    assert_eq!(
        ops,
        vec![
            Op::ModifyCr1(Cr1Update { pe: Some(false), anfoff: Some(false), ..Cr1Update::keep() }),
            Op::WriteTimingr(TimingWrite { presc: 0, periods: None, sdadel: 24, scldel: 95 }),
            Op::ModifyCr1(Cr1Update {
                nostretch: Some(false),
                gcen: Some(true),
                sbc: Some(true),
                pe: Some(true),
                ..Cr1Update::keep()
            }),
            Op::WriteOar1(oa1),
        ]
    );
    assert_eq!(ops[1].word(0), 0x00f8_0000);
    assert_eq!(ops[2].word(0x0002_0000), 0x0009_0001);
}

#[test]
fn slave_set_config_rewrites_prescaler_and_delays() {
    let slave = I2cSlave::new();
    let op = slave.set_config(Hertz(16_000_000), &Hertz(10_000));
    assert_eq!(op, Op::WriteTimingr(TimingWrite { presc: 3, periods: None, sdadel: 2, scldel: 7 }));
    assert_eq!(op.word(0), 0x3072_0000);
}
