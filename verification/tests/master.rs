use stm32_i2c::engine::{Input, Op, Request, Step};
use stm32_i2c::i2c::I2c;
use stm32_i2c::regs::{Cr1Update, Cr2Update, Flag, TimingWrite};
use stm32_i2c::types::{AddressMode, Direction, Error, Hertz, Stop};
use stm32_metapac::i2c::regs::Cr1;

/// Status word with transmit-empty, receive-full, transfer-complete and
/// reload all set, and no error flag.
const READY: u32 = 0xc5;
const TCR: u32 = 1 << 7;
const TC: u32 = 1 << 6;
const TXE: u32 = 1 << 0;
const TXIS: u32 = 1 << 1;
const NACKF: u32 = 1 << 4;
const BERR: u32 = 1 << 8;
const ARLO: u32 = 1 << 9;

fn stop() -> Op {
    Op::WriteCr2(Cr2Update { stop: Some(true), ..Cr2Update::keep() })
}

fn start(address: u8, dir: Direction, nbytes: u8, autoend: Stop, reload: bool) -> Op {
    Op::ModifyCr2(Cr2Update {
        sadd: Some((address as u16) << 1),
        add10: Some(AddressMode::Bit7),
        dir: Some(dir),
        nbytes: Some(nbytes),
        start: Some(true),
        autoend: Some(autoend),
        reload: Some(reload),
        ..Cr2Update::keep()
    })
}

fn carry_on(nbytes: u8, reload: bool) -> Op {
    Op::ModifyCr2(Cr2Update { nbytes: Some(nbytes), reload: Some(reload), ..Cr2Update::keep() })
}

fn rearm() -> Op {
    Op::ModifyCr1(Cr1Update { tcie: Some(true), ..Cr1Update::keep() })
}

fn cr1(txdmaen: Option<bool>, rxdmaen: Option<bool>, tcie: Option<bool>) -> Op {
    Op::ModifyCr1(Cr1Update { txdmaen, rxdmaen, tcie, ..Cr1Update::keep() })
}

/// Drives an operation to its end with hardware that is always ready: START
/// clears at once, every status read is `isr`, the receive register delivers
/// `rx` in order, the deadline never passes, a sleeping task is woken, and
/// the DMA engine is done when asked.
fn drive(engine: &mut I2c, first: Step<()>, isr: u32, rx: &[u8]) -> (Vec<Op>, Result<(), Error>) {
    let mut ops = Vec::new();
    let mut heard = 0;
    let mut step = first;
    for _ in 0..100_000 {
        ops.extend(step.ops.iter().copied());
        let input = match step.request {
            Request::Finish(result) => return (ops, result),
            Request::ReadCr2 => Input::Word(0),
            Request::ReadIsr => Input::Word(isr),
            Request::ReadRxdr => {
                heard += 1;
                Input::Word(rx[heard - 1] as u32)
            }
            Request::CheckDeadline => Input::Expired(false),
            Request::Suspend => Input::Woken,
            Request::AwaitDma => Input::DmaDone,
            Request::PollDma => Input::DmaReady(true),
            Request::DmaRemaining => Input::Remaining(0),
            Request::Idle => panic!("the engine went idle without finishing"),
        };
        step = engine.advance(input);
    }
    panic!("the operation did not end");
}

fn sent(ops: &[Op]) -> Vec<u8> {
    ops.iter().filter_map(|op| match op { Op::WriteTxdr(byte) => Some(*byte), _ => None }).collect()
}

fn programmed(ops: &[Op]) -> Vec<(u8, bool)> {
    ops.iter()
        .filter_map(|op| match op {
            Op::ModifyCr2(Cr2Update { nbytes: Some(n), reload: Some(r), .. }) => Some((*n, *r)),
            _ => None,
        })
        .collect()
}

fn starts(ops: &[Op]) -> usize {
    ops.iter()
        .filter(|op| matches!(op, Op::ModifyCr2(Cr2Update { start: Some(true), .. })))
        .count()
}

fn stops(ops: &[Op]) -> usize {
    ops.iter().filter(|op| **op == stop()).count()
}

fn pattern(len: usize) -> Vec<u8> {
    (0..len).map(|i| (i * 7 + 3) as u8).collect()
}

#[test]
fn new_engine_is_idle() {
    let mut engine = I2c::new();
    let step = engine.advance(Input::Woken);
    assert!(step.ops.is_empty());
    assert_eq!(step.request, Request::Idle);
    assert!(engine.received().is_empty());
    assert!(engine.cancel().is_empty());
}

#[test]
fn blocking_write_of_three_bytes() {
    let mut engine = I2c::new();
    let first = engine.blocking_write(0x50, &[1, 2, 3]);
    assert!(first.ops.is_empty());
    assert_eq!(first.request, Request::ReadCr2);
    let (ops, result) = drive(&mut engine, first, READY, &[]);
    assert_eq!(result, Ok(()));
    assert_eq!(
        ops,
        vec![
            start(0x50, Direction::Write, 3, Stop::Software, false),
            Op::WriteTxdr(1),
            Op::WriteTxdr(2),
            Op::WriteTxdr(3),
            stop(),
        ]
    );
    // The word that goes to control register 2: address 0xa0, START, three bytes.
    assert_eq!(ops[0].word(0), 0x0003_20a0);
    assert_eq!(ops[4].word(0x0003_00a0), 0x0000_4000);
}

#[test]
fn blocking_write_steps_one_request_at_a_time() {
    let mut engine = I2c::new();
    let step = engine.blocking_write(0x21, &[9]);
    assert_eq!(step.request, Request::ReadCr2);
    // START from an earlier transfer is still pending: the deadline is checked.
    let step = engine.advance(Input::Word(1 << 13));
    assert!(step.ops.is_empty());
    assert_eq!(step.request, Request::CheckDeadline);
    let step = engine.advance(Input::Expired(false));
    assert_eq!(step.request, Request::ReadCr2);
    let step = engine.advance(Input::Word(0));
    assert_eq!(step.ops, vec![start(0x21, Direction::Write, 1, Stop::Software, false)]);
    assert_eq!(step.request, Request::ReadIsr);
    // Nothing set yet.
    let step = engine.advance(Input::Word(0));
    assert!(step.ops.is_empty());
    assert_eq!(step.request, Request::CheckDeadline);
    let step = engine.advance(Input::Expired(false));
    assert_eq!(step.request, Request::ReadIsr);
    let step = engine.advance(Input::Word(TXE));
    assert_eq!(step.ops, vec![Op::WriteTxdr(9)]);
    assert_eq!(step.request, Request::ReadIsr);
    // Transmit-empty is not transfer-complete.
    let step = engine.advance(Input::Word(TXE));
    assert!(step.ops.is_empty());
    assert_eq!(step.request, Request::CheckDeadline);
    let step = engine.advance(Input::Expired(false));
    let step2 = engine.advance(Input::Word(TC));
    assert_eq!(step.request, Request::ReadIsr);
    assert_eq!(step2.ops, vec![stop()]);
    assert_eq!(step2.request, Request::Finish(Ok(())));
    assert_eq!(engine.advance(Input::Word(TC)).request, Request::Idle);
}

#[test]
fn answer_of_another_kind_changes_nothing() {
    let mut engine = I2c::new();
    let step = engine.blocking_write(0x21, &[9]);
    assert_eq!(step.request, Request::ReadCr2);
    for input in [
        Input::Woken,
        Input::DmaDone,
        Input::Expired(true),
        Input::Expired(false),
        Input::DmaReady(true),
        Input::Remaining(3),
    ] {
        let again = engine.advance(input);
        assert!(again.ops.is_empty());
        assert_eq!(again.request, Request::ReadCr2);
    }
    let (ops, result) = drive(&mut engine, Step { ops: Vec::new(), request: Request::ReadCr2 }, READY, &[]);
    assert_eq!(result, Ok(()));
    assert_eq!(sent(&ops), vec![9]);
}

#[test]
fn blocking_write_of_nothing_is_one_empty_step() {
    let mut engine = I2c::new();
    let first = engine.blocking_write(0x50, &[]);
    let (ops, result) = drive(&mut engine, first, READY, &[]);
    assert_eq!(result, Ok(()));
    assert_eq!(ops, vec![start(0x50, Direction::Write, 0, Stop::Software, false), stop()]);
}

#[test]
fn blocking_write_chunk_counts() {
    for (len, chunks) in [
        (1usize, vec![(1u8, false)]),
        (254, vec![(254, false)]),
        (255, vec![(255, false)]),
        (256, vec![(255, true), (1, false)]),
        (510, vec![(255, true), (255, false)]),
        (511, vec![(255, true), (255, true), (1, false)]),
        (1000, vec![(255, true), (255, true), (255, true), (235, false)]),
    ] {
        let data = pattern(len);
        let mut engine = I2c::new();
        let first = engine.blocking_write(0x11, &data);
        let (ops, result) = drive(&mut engine, first, READY, &[]);
        assert_eq!(result, Ok(()));
        assert_eq!(programmed(&ops), chunks);
        assert_eq!(programmed(&ops).len(), (len + 254) / 255);
        assert_eq!(sent(&ops), data);
        assert_eq!(starts(&ops), 1);
        assert_eq!(stops(&ops), 1);
        assert_eq!(ops.last(), Some(&stop()));
    }
}

#[test]
fn blocking_write_reprograms_after_exactly_255_bytes() {
    let data = pattern(300);
    let mut engine = I2c::new();
    let first = engine.blocking_write(0x11, &data);
    let (ops, _) = drive(&mut engine, first, READY, &[]);
    assert_eq!(ops[0], start(0x11, Direction::Write, 255, Stop::Software, true));
    assert_eq!(ops[256], carry_on(45, false));
    assert_eq!(ops.len(), 1 + 255 + 1 + 45 + 1);
}

#[test]
fn blocking_read_of_300_bytes_takes_two_steps() {
    let data = pattern(300);
    let mut engine = I2c::new();
    let first = engine.blocking_read(0x42, 300);
    let (ops, result) = drive(&mut engine, first, READY, &data);
    assert_eq!(result, Ok(()));
    assert_eq!(
        ops,
        vec![start(0x42, Direction::Read, 255, Stop::Automatic, true), carry_on(45, false)]
    );
    assert_eq!(programmed(&ops), vec![(255, true), (45, false)]);
    assert_eq!(engine.received(), &data);
    // Address 0x84, read, START, 255 bytes, reload, automatic end.
    assert_eq!(ops[0].word(0), 0x03ff_2484);
}

#[test]
fn blocking_read_leaves_stop_to_the_peripheral() {
    let mut engine = I2c::new();
    let first = engine.blocking_read(0x42, 2);
    let (ops, result) = drive(&mut engine, first, READY, &[0xaa, 0xbb]);
    assert_eq!(result, Ok(()));
    assert_eq!(ops, vec![start(0x42, Direction::Read, 2, Stop::Automatic, false)]);
    assert_eq!(stops(&ops), 0);
    assert_eq!(engine.received(), &vec![0xaa, 0xbb]);
}

#[test]
fn blocking_read_of_nothing() {
    let mut engine = I2c::new();
    let first = engine.blocking_read(0x42, 0);
    assert_eq!(first.request, Request::ReadCr2);
    let step = engine.advance(Input::Word(0));
    assert_eq!(step.ops, vec![start(0x42, Direction::Read, 0, Stop::Automatic, false)]);
    assert_eq!(step.request, Request::Finish(Ok(())));
    assert!(engine.received().is_empty());
}

#[test]
fn blocking_read_takes_bytes_from_the_low_byte_of_the_word() {
    let mut engine = I2c::new();
    engine.blocking_read(0x42, 1);
    engine.advance(Input::Word(0));
    let step = engine.advance(Input::Word(1 << 2));
    assert_eq!(step.request, Request::ReadRxdr);
    let step = engine.advance(Input::Word(0xffff_ff5a));
    assert_eq!(step.request, Request::Finish(Ok(())));
    assert_eq!(engine.received(), &vec![0x5a]);
}

#[test]
fn blocking_write_read_restarts_without_stop() {
    let mut engine = I2c::new();
    let first = engine.blocking_write_read(0x68, &[0x75], 2);
    let (ops, result) = drive(&mut engine, first, READY, &[0x12, 0x34]);
    assert_eq!(result, Ok(()));
    assert_eq!(
        ops,
        vec![
            start(0x68, Direction::Write, 1, Stop::Software, false),
            Op::WriteTxdr(0x75),
            start(0x68, Direction::Read, 2, Stop::Automatic, false),
        ]
    );
    assert_eq!(starts(&ops), 2);
    assert_eq!(stops(&ops), 0);
    assert_eq!(engine.received(), &vec![0x12, 0x34]);
}

#[test]
fn blocking_write_read_does_not_wait_for_start_to_clear_again() {
    let mut engine = I2c::new();
    let step = engine.blocking_write_read(0x68, &[], 1);
    assert_eq!(step.request, Request::ReadCr2);
    let step = engine.advance(Input::Word(0));
    assert_eq!(step.ops, vec![start(0x68, Direction::Write, 0, Stop::Software, false)]);
    assert_eq!(step.request, Request::ReadIsr);
    // Transfer complete: the second START goes out in the same step.
    let step = engine.advance(Input::Word(TC));
    assert_eq!(step.ops, vec![start(0x68, Direction::Read, 1, Stop::Automatic, false)]);
    assert_eq!(step.request, Request::ReadIsr);
}

#[test]
fn blocking_write_read_failure_holds_the_bus() {
    let mut engine = I2c::new();
    let first = engine.blocking_write_read(0x68, &[1, 2], 2);
    let (ops, result) = drive(&mut engine, first, BERR, &[]);
    assert_eq!(result, Err(Error::Bus));
    assert_eq!(stops(&ops), 0);
}

#[test]
fn vectored_write_without_buffers_is_rejected() {
    let mut engine = I2c::new();
    let step = engine.blocking_write_vectored(0x50, &[]);
    assert!(step.ops.is_empty());
    assert_eq!(step.request, Request::Finish(Err(Error::ZeroLengthTransfer)));
    assert_eq!(engine.advance(Input::Word(0)).request, Request::Idle);
    let step = engine.write_vectored(0x50, &[]);
    assert!(step.ops.is_empty());
    assert_eq!(step.request, Request::Finish(Err(Error::ZeroLengthTransfer)));
}

#[test]
fn vectored_write_is_one_transfer() {
    let a = [1u8, 2];
    let b = [3u8];
    let c = [4u8, 5, 6];
    let mut engine = I2c::new();
    let first = engine.blocking_write_vectored(0x50, &[&a, &b, &c]);
    let (ops, result) = drive(&mut engine, first, READY, &[]);
    assert_eq!(result, Ok(()));
    assert_eq!(
        ops,
        vec![
            start(0x50, Direction::Write, 2, Stop::Software, true),
            Op::WriteTxdr(1),
            Op::WriteTxdr(2),
            carry_on(1, true),
            Op::WriteTxdr(3),
            carry_on(3, false),
            Op::WriteTxdr(4),
            Op::WriteTxdr(5),
            Op::WriteTxdr(6),
            stop(),
        ]
    );
}

#[test]
fn vectored_write_equals_single_write_on_the_wire() {
    let a = pattern(300);
    let b = pattern(1);
    let c = pattern(255);
    let d = pattern(256);
    let mut joined = Vec::new();
    for part in [&a, &b, &c, &d] {
        joined.extend_from_slice(part);
    }

    let mut engine = I2c::new();
    let first = engine.blocking_write_vectored(0x33, &[&a, &b, &c, &d]);
    let (many, result) = drive(&mut engine, first, READY, &[]);
    assert_eq!(result, Ok(()));

    let mut engine = I2c::new();
    let first = engine.blocking_write(0x33, &joined);
    let (one, result) = drive(&mut engine, first, READY, &[]);
    assert_eq!(result, Ok(()));

    assert_eq!(sent(&many), joined);
    assert_eq!(sent(&many), sent(&one));
    assert_eq!(starts(&many), 1);
    assert_eq!(starts(&one), 1);
    assert_eq!(stops(&many), 1);
    assert_eq!(stops(&one), 1);
    assert_eq!(many.last(), Some(&stop()));
    // Every step but the very last asserts reload, across buffer boundaries too.
    assert_eq!(
        programmed(&many),
        vec![(255, true), (45, true), (1, true), (255, true), (255, true), (1, false)]
    );
    assert_eq!(programmed(&one), vec![(255, true), (255, true), (255, true), (47, false)]);
}

#[test]
fn vectored_write_with_one_buffer_is_a_plain_write() {
    let data = pattern(260);
    let mut engine = I2c::new();
    let first = engine.blocking_write_vectored(0x33, &[&data]);
    let (many, _) = drive(&mut engine, first, READY, &[]);
    let mut engine = I2c::new();
    let first = engine.blocking_write(0x33, &data);
    let (one, _) = drive(&mut engine, first, READY, &[]);
    assert_eq!(many, one);
}

#[test]
fn vectored_write_with_an_empty_first_buffer() {
    let b = [7u8, 8];
    let mut engine = I2c::new();
    let first = engine.blocking_write_vectored(0x50, &[&[], &b]);
    let (ops, result) = drive(&mut engine, first, READY, &[]);
    assert_eq!(result, Ok(()));
    assert_eq!(
        ops,
        vec![
            start(0x50, Direction::Write, 2, Stop::Software, false),
            Op::WriteTxdr(7),
            Op::WriteTxdr(8),
            stop(),
        ]
    );
}

#[test]
fn vectored_write_with_an_empty_last_buffer() {
    let mut engine = I2c::new();
    let first = engine.blocking_write_vectored(0x10, &[&[1], &[]]);
    assert_eq!(first.request, Request::ReadCr2);
    let (many, result) = drive(&mut engine, first, READY, &[]);
    assert_eq!(result, Ok(()));
    assert_eq!(
        many,
        vec![start(0x10, Direction::Write, 1, Stop::Software, false), Op::WriteTxdr(1), stop()]
    );
    let mut engine = I2c::new();
    let first = engine.blocking_write(0x10, &[1]);
    let (one, result) = drive(&mut engine, first, READY, &[]);
    assert_eq!(result, Ok(()));
    assert_eq!(many, one);
}

#[test]
fn vectored_write_skips_empty_buffers_in_the_middle() {
    let a = pattern(256);
    let b = pattern(2);
    let mut joined = a.clone();
    joined.extend_from_slice(&b);
    let mut engine = I2c::new();
    let first = engine.blocking_write_vectored(0x33, &[&[], &a, &[], &[], &b, &[]]);
    let (ops, result) = drive(&mut engine, first, READY, &[]);
    assert_eq!(result, Ok(()));
    assert_eq!(sent(&ops), joined);
    assert_eq!(programmed(&ops), vec![(255, true), (1, true), (2, false)]);
    assert_eq!(starts(&ops), 1);
    assert_eq!(stops(&ops), 1);
    assert_eq!(ops[0], start(0x33, Direction::Write, 255, Stop::Software, true));
    assert_eq!(ops.last(), Some(&stop()));
}

#[test]
fn vectored_write_of_empty_buffers_only_is_an_empty_write() {
    let mut engine = I2c::new();
    let first = engine.blocking_write_vectored(0x50, &[&[], &[], &[]]);
    assert_eq!(first.request, Request::ReadCr2);
    let (many, result) = drive(&mut engine, first, READY, &[]);
    assert_eq!(result, Ok(()));
    assert_eq!(many, vec![start(0x50, Direction::Write, 0, Stop::Software, false), stop()]);
    let mut engine = I2c::new();
    let first = engine.blocking_write(0x50, &[]);
    let (one, _) = drive(&mut engine, first, READY, &[]);
    assert_eq!(many, one);
}

#[test]
fn vectored_write_failure_releases_the_bus() {
    for (flags, error, flag) in [
        (BERR, Error::Bus, Some(Flag::Berr)),
        (ARLO, Error::Arbitration, Some(Flag::Arlo)),
    ] {
        let mut engine = I2c::new();
        let first = engine.blocking_write_vectored(0x50, &[&[1, 2], &[], &[3]]);
        let (ops, result) = drive(&mut engine, first, flags, &[]);
        assert_eq!(result, Err(error));
        assert!(sent(&ops).is_empty());
        assert_eq!(ops.last(), Some(&stop()));
        assert_eq!(stops(&ops), 1);
        assert_eq!(ops[ops.len() - 2], Op::WriteIcr(flag.unwrap()));
    }
}

#[test]
fn dma_write_vectored_skips_empty_buffers() {
    let a = pattern(3);
    let b = pattern(2);
    let mut engine = I2c::new();
    let first = engine.write_vectored(0x50, &[&[], &a, &[], &b, &[]]);
    assert_eq!(
        first.ops,
        vec![cr1(Some(true), None, Some(true)), Op::StartDmaWrite { buffer: 1, len: 3 }]
    );
    let (ops, result) = drive(&mut engine, first, READY, &[]);
    assert_eq!(result, Ok(()));
    assert_eq!(
        ops,
        vec![
            cr1(Some(true), None, Some(true)),
            Op::StartDmaWrite { buffer: 1, len: 3 },
            start(0x50, Direction::Write, 3, Stop::Software, true),
            cr1(None, None, Some(false)),
            cr1(Some(true), None, None),
            Op::StartDmaWrite { buffer: 3, len: 2 },
            carry_on(2, false),
            rearm(),
            stop(),
            cr1(Some(false), None, Some(false)),
        ]
    );
}

#[test]
fn dma_write_vectored_of_empty_buffers_only_goes_byte_by_byte() {
    let mut engine = I2c::new();
    let first = engine.write_vectored(0x50, &[&[], &[]]);
    assert!(first.ops.is_empty());
    assert_eq!(first.request, Request::ReadCr2);
    let (ops, result) = drive(&mut engine, first, READY, &[]);
    assert_eq!(result, Ok(()));
    assert_eq!(ops, vec![start(0x50, Direction::Write, 0, Stop::Software, false), stop()]);
}

#[test]
fn next_chunk_waits_for_the_reload_flag() {
    let data = pattern(256);
    let mut engine = I2c::new();
    let mut step = engine.blocking_write(0x11, &data);
    step = engine.advance(Input::Word(0));
    assert_eq!(step.ops.len(), 1);
    for _ in 0..255 {
        step = engine.advance(Input::Word(TXE));
        assert_eq!(step.ops.len(), 1);
    }
    assert_eq!(step.request, Request::ReadIsr);
    // Transmit-empty and transfer-complete do not stand for reload.
    for _ in 0..5 {
        step = engine.advance(Input::Word(TXE | TC));
        assert!(step.ops.is_empty());
        assert_eq!(step.request, Request::CheckDeadline);
        step = engine.advance(Input::Expired(false));
        assert!(step.ops.is_empty());
        assert_eq!(step.request, Request::ReadIsr);
    }
    step = engine.advance(Input::Word(TCR));
    assert_eq!(step.ops, vec![carry_on(1, false)]);
}

#[test]
fn nack_is_cleared_flushed_and_reported() {
    let mut engine = I2c::new();
    engine.blocking_write(0x50, &[1, 2]);
    engine.advance(Input::Word(0));
    let step = engine.advance(Input::Word(NACKF));
    assert_eq!(step.ops, vec![Op::WriteIcr(Flag::Nack)]);
    assert_eq!(step.request, Request::ReadIsr);
    // A transmit request is pending: a dummy byte is written.
    let step = engine.advance(Input::Word(TXIS));
    assert_eq!(step.ops, vec![Op::WriteTxdr(0)]);
    assert_eq!(step.request, Request::ReadIsr);
    // The transmit register is not empty: it is flushed. Then STOP.
    let step = engine.advance(Input::Word(0));
    assert_eq!(step.ops, vec![Op::FlushTransmit, stop()]);
    assert_eq!(step.request, Request::Finish(Err(Error::Nack)));
}

#[test]
fn nack_with_nothing_to_flush() {
    let mut engine = I2c::new();
    engine.blocking_write(0x50, &[1, 2]);
    engine.advance(Input::Word(0));
    engine.advance(Input::Word(NACKF));
    let step = engine.advance(Input::Word(TXE));
    assert!(step.ops.is_empty());
    let step = engine.advance(Input::Word(TXE));
    assert_eq!(step.ops, vec![stop()]);
    assert_eq!(step.request, Request::Finish(Err(Error::Nack)));
}

#[test]
fn ready_flag_wins_over_error_flags() {
    let mut engine = I2c::new();
    engine.blocking_write(0x50, &[1]);
    engine.advance(Input::Word(0));
    let step = engine.advance(Input::Word(TXE | NACKF | BERR | ARLO));
    assert_eq!(step.ops, vec![Op::WriteTxdr(1)]);
}

#[test]
fn bus_error_wins_over_arbitration_and_nack() {
    let mut engine = I2c::new();
    engine.blocking_write(0x50, &[1]);
    engine.advance(Input::Word(0));
    let step = engine.advance(Input::Word(NACKF | BERR | ARLO));
    assert_eq!(step.ops, vec![Op::WriteIcr(Flag::Berr), stop()]);
    assert_eq!(step.request, Request::Finish(Err(Error::Bus)));
}

#[test]
fn arbitration_loss_is_cleared_and_reported() {
    let mut engine = I2c::new();
    engine.blocking_write(0x50, &[1]);
    engine.advance(Input::Word(0));
    let step = engine.advance(Input::Word(NACKF | ARLO));
    assert_eq!(step.ops, vec![Op::WriteIcr(Flag::Arlo), stop()]);
    assert_eq!(step.request, Request::Finish(Err(Error::Arbitration)));
}

#[test]
fn read_failure_commands_no_stop() {
    let mut engine = I2c::new();
    engine.blocking_read(0x50, 4);
    engine.advance(Input::Word(0));
    let step = engine.advance(Input::Word(ARLO));
    assert_eq!(step.ops, vec![Op::WriteIcr(Flag::Arlo)]);
    assert_eq!(step.request, Request::Finish(Err(Error::Arbitration)));
}

#[test]
fn timeout_while_start_is_pending() {
    let mut engine = I2c::new();
    engine.blocking_write(0x50, &[1]);
    let step = engine.advance(Input::Word(1 << 13));
    assert_eq!(step.request, Request::CheckDeadline);
    let step = engine.advance(Input::Expired(true));
    assert_eq!(step.ops, vec![stop()]);
    assert_eq!(step.request, Request::Finish(Err(Error::Timeout)));
}

#[test]
fn timeout_between_chunks_releases_the_bus() {
    let data = pattern(256);
    let mut engine = I2c::new();
    engine.blocking_write(0x11, &data);
    engine.advance(Input::Word(0));
    for _ in 0..255 {
        engine.advance(Input::Word(TXE));
    }
    let step = engine.advance(Input::Word(0));
    assert_eq!(step.request, Request::CheckDeadline);
    let step = engine.advance(Input::Expired(true));
    assert_eq!(step.ops, vec![stop()]);
    assert_eq!(step.request, Request::Finish(Err(Error::Timeout)));
}

#[test]
fn timeout_in_a_read() {
    let mut engine = I2c::new();
    engine.blocking_read(0x50, 1);
    engine.advance(Input::Word(0));
    engine.advance(Input::Word(0));
    let step = engine.advance(Input::Expired(true));
    assert!(step.ops.is_empty());
    assert_eq!(step.request, Request::Finish(Err(Error::Timeout)));
}

#[test]
fn dma_write_of_300_bytes() {
    let data = pattern(300);
    let mut engine = I2c::new();
    let step = engine.write(0x50, &data);
    assert_eq!(
        step.ops,
        vec![cr1(Some(true), None, Some(true)), Op::StartDmaWrite { buffer: 0, len: 300 }]
    );
    assert_eq!(step.request, Request::ReadIsr);
    // First poll: the status word is not looked at, the address phase opens.
    let step = engine.advance(Input::Word(0));
    assert_eq!(step.request, Request::ReadCr2);
    let step = engine.advance(Input::Word(0));
    assert_eq!(step.ops, vec![start(0x50, Direction::Write, 255, Stop::Software, true)]);
    assert_eq!(step.request, Request::Suspend);
    // Woken without a flag: sleep on.
    let step = engine.advance(Input::Woken);
    assert_eq!(step.request, Request::ReadIsr);
    let step = engine.advance(Input::Word(TXE));
    assert!(step.ops.is_empty());
    assert_eq!(step.request, Request::Suspend);
    // Woken by reload: the flag is polled and the next chunk programmed.
    engine.advance(Input::Woken);
    let step = engine.advance(Input::Word(TCR));
    assert!(step.ops.is_empty());
    assert_eq!(step.request, Request::ReadIsr);
    let step = engine.advance(Input::Word(TCR));
    assert_eq!(step.ops, vec![carry_on(45, false), rearm()]);
    assert_eq!(step.request, Request::Suspend);
    // Woken by transfer-complete with nothing left: the DMA engine is awaited.
    engine.advance(Input::Woken);
    let step = engine.advance(Input::Word(TC));
    assert!(step.ops.is_empty());
    assert_eq!(step.request, Request::AwaitDma);
    let step = engine.advance(Input::DmaDone);
    assert_eq!(step.request, Request::ReadIsr);
    let step = engine.advance(Input::Word(TC));
    assert_eq!(step.ops, vec![stop(), cr1(Some(false), None, Some(false))]);
    assert_eq!(step.request, Request::Finish(Ok(())));
}

#[test]
fn dma_write_of_nothing_goes_byte_by_byte() {
    let mut engine = I2c::new();
    let first = engine.write(0x50, &[]);
    assert!(first.ops.is_empty());
    let (ops, result) = drive(&mut engine, first, READY, &[]);
    assert_eq!(result, Ok(()));
    assert_eq!(ops, vec![start(0x50, Direction::Write, 0, Stop::Software, false), stop()]);
}

#[test]
fn dma_read_of_300_bytes() {
    let mut engine = I2c::new();
    let first = engine.read(0x50, 300);
    let (ops, result) = drive(&mut engine, first, READY, &[]);
    assert_eq!(result, Ok(()));
    assert_eq!(
        ops,
        vec![
            cr1(None, Some(true), Some(true)),
            Op::StartDmaRead { len: 300 },
            start(0x50, Direction::Read, 255, Stop::Software, true),
            carry_on(45, false),
            rearm(),
            stop(),
            cr1(None, Some(false), Some(false)),
        ]
    );
    assert!(engine.received().is_empty());
}

#[test]
fn dma_read_of_nothing_goes_byte_by_byte() {
    let mut engine = I2c::new();
    let first = engine.read(0x50, 0);
    let (ops, result) = drive(&mut engine, first, READY, &[]);
    assert_eq!(result, Ok(()));
    assert_eq!(ops, vec![start(0x50, Direction::Read, 0, Stop::Automatic, false)]);
}

#[test]
fn dma_write_vectored_is_one_transfer() {
    let a = pattern(256);
    let b = pattern(3);
    let mut engine = I2c::new();
    let first = engine.write_vectored(0x50, &[&a, &b]);
    let (ops, result) = drive(&mut engine, first, READY, &[]);
    assert_eq!(result, Ok(()));
    assert_eq!(
        ops,
        vec![
            cr1(Some(true), None, Some(true)),
            Op::StartDmaWrite { buffer: 0, len: 256 },
            start(0x50, Direction::Write, 255, Stop::Software, true),
            carry_on(1, true),
            rearm(),
            cr1(None, None, Some(false)),
            cr1(Some(true), None, None),
            Op::StartDmaWrite { buffer: 1, len: 3 },
            carry_on(3, false),
            rearm(),
            stop(),
            cr1(Some(false), None, Some(false)),
        ]
    );
    assert_eq!(starts(&ops), 1);
    assert_eq!(stops(&ops), 1);
}

#[test]
fn dma_write_read_holds_the_bus_between_the_legs() {
    let mut engine = I2c::new();
    let first = engine.write_read(0x50, &[1, 2], 4);
    let (ops, result) = drive(&mut engine, first, READY, &[]);
    assert_eq!(result, Ok(()));
    assert_eq!(
        ops,
        vec![
            cr1(Some(true), None, Some(true)),
            Op::StartDmaWrite { buffer: 0, len: 2 },
            start(0x50, Direction::Write, 2, Stop::Software, false),
            cr1(Some(false), None, Some(false)),
            cr1(None, Some(true), Some(true)),
            Op::StartDmaRead { len: 4 },
            start(0x50, Direction::Read, 4, Stop::Software, false),
            stop(),
            cr1(None, Some(false), Some(false)),
        ]
    );
    assert_eq!(starts(&ops), 2);
    assert_eq!(stops(&ops), 1);
}

#[test]
fn dma_write_read_with_empty_legs_goes_byte_by_byte() {
    let mut engine = I2c::new();
    let first = engine.write_read(0x50, &[], 0);
    let (ops, result) = drive(&mut engine, first, READY, &[]);
    assert_eq!(result, Ok(()));
    assert_eq!(
        ops,
        vec![
            start(0x50, Direction::Write, 0, Stop::Software, false),
            start(0x50, Direction::Read, 0, Stop::Automatic, false),
        ]
    );
}

#[test]
fn deadline_while_suspended_cleans_up() {
    let mut engine = I2c::new();
    engine.read(0x50, 300);
    engine.advance(Input::Word(0));
    let step = engine.advance(Input::Word(0));
    assert_eq!(step.request, Request::Suspend);
    let step = engine.advance(Input::Expired(true));
    assert_eq!(step.ops, vec![cr1(None, Some(false), Some(false))]);
    assert_eq!(step.request, Request::Finish(Err(Error::Timeout)));
}

#[test]
fn deadline_while_suspended_in_a_write_releases_the_bus() {
    let a = [1u8, 2];
    let b = [3u8];
    let mut engine = I2c::new();
    engine.write_vectored(0x50, &[&a, &b]);
    engine.advance(Input::Word(0));
    let step = engine.advance(Input::Word(0));
    assert_eq!(step.request, Request::Suspend);
    // The first buffer is not the last, yet a failure switches DMA requests off.
    let step = engine.advance(Input::Expired(true));
    assert_eq!(step.ops, vec![stop(), cr1(Some(false), None, Some(false))]);
    assert_eq!(step.request, Request::Finish(Err(Error::Timeout)));
}

#[test]
fn deadline_that_has_not_passed_does_not_wake() {
    let mut engine = I2c::new();
    engine.read(0x50, 3);
    engine.advance(Input::Word(0));
    engine.advance(Input::Word(0));
    let step = engine.advance(Input::Expired(false));
    assert!(step.ops.is_empty());
    assert_eq!(step.request, Request::Suspend);
}

#[test]
fn cancel_after_first_chunk_disables_dma_and_interrupt() {
    let mut engine = I2c::new();
    engine.read(0x50, 300);
    engine.advance(Input::Word(0));
    let step = engine.advance(Input::Word(0));
    assert_eq!(step.ops, vec![start(0x50, Direction::Read, 255, Stop::Software, true)]);
    assert_eq!(step.request, Request::Suspend);

    let ops = engine.cancel();
    assert_eq!(ops, vec![cr1(None, Some(false), Some(false))]);
    // Carried out on a register with everything enabled, both enables are off.
    let after = Cr1(ops[0].word(0xffff_ffff));
    assert!(!after.rxdmaen());
    assert!(!after.tcie());
    assert!(after.pe());
    assert!(after.txdmaen());
    // The engine is idle and hands out nothing more.
    let step = engine.advance(Input::Woken);
    assert!(step.ops.is_empty());
    assert_eq!(step.request, Request::Idle);
    assert!(engine.cancel().is_empty());
}

#[test]
fn cancel_of_a_dma_write_disables_transmit_requests() {
    let a = [1u8, 2];
    let b = [3u8];
    let mut engine = I2c::new();
    engine.write_vectored(0x50, &[&a, &b]);
    let ops = engine.cancel();
    assert_eq!(ops, vec![cr1(Some(false), None, Some(false))]);
    let after = Cr1(ops[0].word(0xffff_ffff));
    assert!(!after.txdmaen());
    assert!(!after.tcie());
}

#[test]
fn cancel_of_a_blocking_operation_commands_nothing() {
    let mut engine = I2c::new();
    engine.blocking_write(0x50, &[1, 2, 3]);
    assert!(engine.cancel().is_empty());
    assert_eq!(engine.advance(Input::Word(0)).request, Request::Idle);
}

#[test]
fn a_new_operation_replaces_the_old_one() {
    let mut engine = I2c::new();
    engine.blocking_read(0x50, 1);
    engine.advance(Input::Word(0));
    engine.advance(Input::Word(1 << 2));
    engine.advance(Input::Word(0x77));
    assert_eq!(engine.received(), &vec![0x77]);
    let first = engine.blocking_write(0x51, &[5]);
    assert!(engine.received().is_empty());
    let (ops, result) = drive(&mut engine, first, READY, &[]);
    assert_eq!(result, Ok(()));
    assert_eq!(sent(&ops), vec![5]);
}

#[test]
fn address_is_shifted_into_the_address_field() {
    let mut engine = I2c::new();
    engine.blocking_write(0xff, &[]);
    let step = engine.advance(Input::Word(0));
    // The shift drops the top bit of the byte.
    assert_eq!(step.ops, vec![start(0x7f, Direction::Write, 0, Stop::Software, false)]);
    assert_eq!(step.ops[0].word(0), 0x0000_20fe);
}

#[test]
fn init_switches_off_programs_timing_switches_on() {
    let engine = I2c::new();
    let ops = engine.init(Hertz(48_000_000), Hertz(100_000));
    assert_eq!(
        ops,
        vec![
            Op::ModifyCr1(Cr1Update { pe: Some(false), anfoff: Some(false), ..Cr1Update::keep() }),
            Op::WriteTimingr(TimingWrite {
                presc: 0,
                periods: Some((239, 239)),
                sdadel: 24,
                scldel: 95,
            }),
            Op::ModifyCr1(Cr1Update { pe: Some(true), ..Cr1Update::keep() }),
        ]
    );
    assert_eq!(ops[0].word(0x0000_1001), 0);
    assert_eq!(ops[1].word(0), 0x00f8_efef);
    assert_eq!(ops[2].word(0), 1);
}

#[test]
fn set_config_rewrites_the_timing_register() {
    let engine = I2c::new();
    let op = engine.set_config(Hertz(48_000_000), &Hertz(400_000));
    assert_eq!(
        op,
        Op::WriteTimingr(TimingWrite { presc: 0, periods: Some((79, 39)), sdadel: 12, scldel: 23 })
    );
}

/// Counts the answers that a cooperative bus gives until the operation ends.
fn answers(engine: &mut I2c, first: Step<()>) -> (usize, Result<(), Error>) {
    let mut step = first;
    for count in 0..100_000 {
        let input = match step.request {
            Request::Finish(result) => return (count, result),
            Request::ReadCr2 => Input::Word(0),
            Request::ReadIsr => Input::Word(READY),
            Request::ReadRxdr => Input::Word(0x5a),
            Request::Suspend => Input::Woken,
            Request::AwaitDma => Input::DmaDone,
            _ => panic!("a cooperative bus is asked for nothing else"),
        };
        step = engine.advance(input);
    }
    panic!("the operation did not end");
}

#[test]
fn cooperative_bus_ends_a_write_within_its_steps() {
    for len in [0usize, 1, 2, 254, 255, 256, 510, 511, 700] {
        let data = pattern(len);
        let chunks = if len == 0 { 1 } else { (len + 254) / 255 };
        let mut engine = I2c::new();
        let first = engine.blocking_write(0x22, &data);
        let (count, result) = answers(&mut engine, first);
        assert_eq!(result, Ok(()));
        assert_eq!(count, len + chunks + 1);
    }
}

#[test]
fn cooperative_bus_ends_a_read_within_its_steps() {
    for len in [0usize, 1, 255, 256, 600] {
        let chunks = if len == 0 { 1 } else { (len + 254) / 255 };
        let mut engine = I2c::new();
        let first = engine.blocking_read(0x22, len);
        let (count, result) = answers(&mut engine, first);
        assert_eq!(result, Ok(()));
        assert_eq!(count, 2 * len + chunks);
        assert_eq!(engine.received().len(), len);
    }
}

#[test]
fn cooperative_bus_ends_a_vectored_write_within_its_steps() {
    let a = pattern(300);
    let b = pattern(5);
    let mut engine = I2c::new();
    let first = engine.blocking_write_vectored(0x22, &[&a, &[], &b]);
    let (count, result) = answers(&mut engine, first);
    assert_eq!(result, Ok(()));
    // 305 bytes, two chunks and one chunk, and transfer-complete.
    assert_eq!(count, 305 + 3 + 1);
}

#[test]
fn stop_is_the_last_command_and_follows_transfer_complete() {
    let mut engine = I2c::new();
    engine.blocking_write(0x50, &[1]);
    engine.advance(Input::Word(0));
    let step = engine.advance(Input::Word(TXE));
    assert_eq!(step.ops, vec![Op::WriteTxdr(1)]);
    assert_eq!(step.request, Request::ReadIsr);
    // Reload and transmit-empty are not transfer-complete: no STOP yet.
    let step = engine.advance(Input::Word(TXE | TCR));
    assert!(step.ops.is_empty());
    engine.advance(Input::Expired(false));
    let step = engine.advance(Input::Word(TC));
    assert_eq!(step.ops.last(), Some(&stop()));
    assert_eq!(step.request, Request::Finish(Ok(())));
}

#[test]
fn cooperative_bus_ends_dma_transfers_within_their_steps() {
    for len in [1usize, 255, 256, 300, 600] {
        let chunks = (len + 254) / 255;
        let mut engine = I2c::new();
        let first = engine.read(0x22, len);
        let (count, result) = answers(&mut engine, first);
        assert_eq!(result, Ok(()));
        assert_eq!(count, 3 * chunks + 3);

        let data = pattern(len);
        let mut engine = I2c::new();
        let first = engine.write(0x22, &data);
        let (count, result) = answers(&mut engine, first);
        assert_eq!(result, Ok(()));
        assert_eq!(count, 3 * chunks + 3);
    }
}
