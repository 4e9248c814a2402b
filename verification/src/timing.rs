//! Timing coefficients for the clock-timing register.
use vstd::prelude::*;
use crate::types::Hertz;

verus! {

/// Bus rates above this one use the fast-mode derivation.
pub const STANDARD_MODE_MAX: u32 = 100_000;

/// Bus rates above this one use the fast-mode-plus divisors.
pub const FAST_MODE_MAX: u32 = 400_000;

/// Kernel clock ticks per bus period.
pub open spec fn ratio(i2cclk: u32, freq: u32) -> int {
    i2cclk as int / freq as int
}

/// Lowest kernel clock the mode of `freq` works with.
pub open spec fn clock_floor(freq: u32) -> int {
    if freq > FAST_MODE_MAX {
        17_000_000
    } else if freq > STANDARD_MODE_MAX {
        8_000_000
    } else {
        2_000_000
    }
}

/// Kernel clock rate that makes one tick of data hold time.
pub open spec fn hold_divisor(freq: u32) -> int {
    if freq > FAST_MODE_MAX {
        8_000_000
    } else if freq > STANDARD_MODE_MAX {
        4_000_000
    } else {
        2_000_000
    }
}

/// Kernel clock rate that makes one tick of data setup time.
pub open spec fn setup_divisor(freq: u32) -> int {
    if freq > FAST_MODE_MAX {
        4_000_000
    } else if freq > STANDARD_MODE_MAX {
        2_000_000
    } else {
        500_000
    }
}

/// The prescaler field: fast modes leave 384 ticks of headroom for one bus
/// period, standard mode 512 and the field's largest value.
pub open spec fn prescaler(i2cclk: u32, freq: u32) -> int {
    if freq > STANDARD_MODE_MAX {
        (ratio(i2cclk, freq) - 1) / 384
    } else if (ratio(i2cclk, freq) - 1) / 512 < 15 {
        (ratio(i2cclk, freq) - 1) / 512
    } else {
        15
    }
}

/// Prescaled ticks per bus period.
pub open spec fn period_ticks(i2cclk: u32, freq: u32) -> int {
    ratio(i2cclk, freq) / (prescaler(i2cclk, freq) + 1)
}

/// The high-period field: a third of the period in fast modes, half of it in
/// standard mode.
pub open spec fn high_period(i2cclk: u32, freq: u32) -> int {
    if freq > STANDARD_MODE_MAX {
        (period_ticks(i2cclk, freq) - 3) / 3
    } else {
        (period_ticks(i2cclk, freq) - 2) / 2
    }
}

/// The low-period field: twice the high period in fast modes, the same in
/// standard mode.
pub open spec fn low_period(i2cclk: u32, freq: u32) -> int {
    if freq > STANDARD_MODE_MAX {
        2 * (high_period(i2cclk, freq) + 1) - 1
    } else {
        high_period(i2cclk, freq)
    }
}

/// Data hold time in prescaled ticks, before it is cut to a byte and floored.
pub open spec fn hold_ticks(i2cclk: u32, freq: u32) -> int {
    i2cclk as int / hold_divisor(freq) / (prescaler(i2cclk, freq) + 1)
}

/// Data setup time in prescaled ticks less one, or none where it is under one
/// tick, before it is cut to a byte and floored.
pub open spec fn setup_ticks(i2cclk: u32, freq: u32) -> int {
    let whole = i2cclk as int / setup_divisor(freq) / (prescaler(i2cclk, freq) + 1);
    if whole >= 1 {
        whole - 1
    } else {
        0
    }
}

/// The larger of two field values.
pub open spec fn at_least(value: int, floor: int) -> int {
    if value < floor {
        floor
    } else {
        value
    }
}

/// The five coefficients of the timing register.
#[derive(Clone, Copy, Debug, PartialEq, Eq)]
pub struct Timings {
    pub prescale: u8,
    pub scll: u8,
    pub sclh: u8,
    pub sdadel: u8,
    pub scldel: u8,
}

impl Timings {
    /// The clock pairs the derivation is defined for: the kernel clock is at
    /// least four bus periods and not below the floor of the mode, the
    /// prescaler fits its four bits, and in standard mode the half period fits
    /// a byte.
    pub open spec fn accepts_spec(i2cclk: u32, freq: u32) -> bool {
        &&& freq > 0
        &&& ratio(i2cclk, freq) >= 4
        &&& i2cclk >= clock_floor(freq)
        &&& prescaler(i2cclk, freq) < 16
        &&& freq <= STANDARD_MODE_MAX ==> high_period(i2cclk, freq) < 256
    }

    /// The coefficients for a kernel clock and a bus rate.
    pub open spec fn spec_new(i2cclk: u32, freq: u32) -> Timings {
        Timings {
            prescale: prescaler(i2cclk, freq) as u8,
            scll: low_period(i2cclk, freq) as u8,
            sclh: high_period(i2cclk, freq) as u8,
            sdadel: at_least(hold_ticks(i2cclk, freq) % 256, 2) as u8,
            scldel: at_least(setup_ticks(i2cclk, freq) % 256, 4) as u8,
        }
    }

    /// Whether `new` is defined for this pair of clocks.
    pub fn accepts(i2cclk: Hertz, freq: Hertz) -> (ok: bool)
        ensures
            ok == Self::accepts_spec(i2cclk.0, freq.0),
    {
        let clk: u32 = i2cclk.0;
        let bus: u32 = freq.0;
        if bus == 0 {
            return false;
        }
        let ratio: u32 = clk / bus;
        if ratio < 4 {
            return false;
        }
        if bus > STANDARD_MODE_MAX {
            let floor: u32 = if bus > FAST_MODE_MAX { 17_000_000 } else { 8_000_000 };
            clk >= floor && (ratio - 1) / 384 < 16
        } else {
            if clk < 2_000_000 {
                return false;
            }
            let wide: u32 = (ratio - 1) / 512;
            let presc: u32 = if wide < 15 { wide + 1 } else { 16 };
            proof {
                lemma_period_floor(ratio as int, presc as int, 512);
            }
            let sclh: u32 = (ratio / presc - 2) / 2;
            sclh < 256
        }
    }

    /// Derives the coefficients. In standard mode the two half periods are
    /// equal; in the fast modes the low period is twice the high one.
    pub fn new(i2cclk: Hertz, freq: Hertz) -> (t: Timings)
        requires
            Self::accepts_spec(i2cclk.0, freq.0),
        ensures
            t == Self::spec_new(i2cclk.0, freq.0),
            t.prescale < 16,
            t.sdadel >= 2,
            t.scldel >= 4,
            freq.0 <= STANDARD_MODE_MAX ==> t.scll == t.sclh,
            freq.0 > STANDARD_MODE_MAX ==> t.scll == 2 * (t.sclh + 1) - 1,
    {
        let clk: u32 = i2cclk.0;
        let bus: u32 = freq.0;
        let ratio: u32 = clk / bus;
        let fast: bool = bus > STANDARD_MODE_MAX;
        let presc_reg: u32 = if fast {
            (ratio - 1) / 384
        } else {
            let wide: u32 = (ratio - 1) / 512;
            if wide < 15 { wide } else { 15 }
        };
        let presc: u32 = presc_reg + 1;
        proof {
            lemma_period_floor(ratio as int, presc as int, if fast { 384int } else { 512int });
            if fast {
                lemma_period_ceiling(ratio as int, presc as int);
            }
        }
        let sclh: u32 = if fast { (ratio / presc - 3) / 3 } else { (ratio / presc - 2) / 2 };
        let scll: u32 = if fast { 2 * (sclh + 1) - 1 } else { sclh };
        let hold_div: u32 = if bus > FAST_MODE_MAX {
            8_000_000
        } else if fast {
            4_000_000
        } else {
            2_000_000
        };
        let setup_div: u32 = if bus > FAST_MODE_MAX {
            4_000_000
        } else if fast {
            2_000_000
        } else {
            500_000
        };
        let hold: u32 = (clk / hold_div / presc) % 256;
        let whole: u32 = clk / setup_div / presc;
        let setup: u32 = (if whole >= 1 { whole - 1 } else { 0 }) % 256;
        Timings {
            prescale: presc_reg as u8,
            scll: scll as u8,
            sclh: sclh as u8,
            sdadel: if hold < 2 { 2 } else { hold as u8 },
            scldel: if setup < 4 { 4 } else { setup as u8 },
        }
    }
}

/// With the prescaler chosen for `headroom` ticks, a period of at least four
/// ticks still counts at least four prescaled ticks.
pub proof fn lemma_period_floor(ratio: int, presc: int, headroom: int)
    requires
        ratio >= 4,
        headroom == 384 || headroom == 512,
        1 <= presc <= (ratio - 1) / headroom + 1,
    ensures
        ratio / presc >= 3,
{
    assert(ratio / presc >= 3) by (nonlinear_arith)
        requires
            ratio >= 4,
            presc >= 1,
            (presc - 1) * 384 <= ratio - 1,
    ;
}

/// In the fast modes a period counts at most 384 prescaled ticks.
pub proof fn lemma_period_ceiling(ratio: int, presc: int)
    requires
        ratio >= 4,
        presc == (ratio - 1) / 384 + 1,
    ensures
        ratio / presc <= 384,
{
    assert(ratio / presc <= 384) by (nonlinear_arith)
        requires
            ratio <= 384 * presc,
            presc >= 1,
            ratio >= 0,
    ;
}

/// A kernel clock of less than four bus periods is never accepted.
pub proof fn lemma_low_ratio_rejected(i2cclk: u32, freq: u32)
    requires
        freq > 0,
        i2cclk < 4 * freq,
    ensures
        !Timings::accepts_spec(i2cclk, freq),
{
    let clk = i2cclk as int;
    let bus = freq as int;
    assert(clk / bus <= 3) by (nonlinear_arith)
        requires
            bus > 0,
            0 <= clk,
            clk < 4 * bus,
    ;
}

} // verus!
