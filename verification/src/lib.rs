//! Verified core of a driver for the STM32 I2C peripheral (second register
//! generation), in master and slave role.
//!
//! The crate never touches hardware. Every operation is a state machine:
//! it hands out register commands ([`engine::Op`]) together with one request
//! that needs an answer ([`engine::Request`]), and is driven on by feeding the
//! answer back ([`engine::Input`]). The caller owns the register file, the
//! DMA channels, the clock and the waker, and moves words between them and
//! the machine.
//!
//! - [`timing`]: the coefficients of the timing register.
//! - [`bits`], [`regs`]: register fields and their packing into words.
//! - [`chunk`]: the 255-byte steps of a transfer.
//! - [`master`], [`i2c`]: the master engine, as a model and in executable
//!   form.
//! - [`slave`]: the slave engine.
//! - [`interrupt`]: the interrupt handler's decision.
//! - [`trace`], [`laws`], [`slave_laws`]: what holds of every run.
//! - [`cooperative`]: that a bus on which nothing goes wrong lets every
//!   master operation end well.
pub mod types;
pub mod timing;
pub mod bits;
pub mod regs;
pub mod engine;
pub mod chunk;
pub mod master;
pub mod i2c;
pub mod slave;
pub mod interrupt;
pub mod trace;
pub mod laws;
pub mod slave_laws;
pub mod cooperative;
