//! Driver for the LPS25H pressure and temperature sensor.
//!
//! The chip needs no calibration: its samples convert by fixed formulas,
//! `42.5 + raw / 480` degrees Celsius and `raw / 4096` hectopascals.

use crate::bus::{
    failed_reads, failed_writes, fresh, followed_by_reads, lemma_failure_within, lemma_no_reads, BusOp,
    I2cBus, SensorHandle,
};
use crate::bytes::{le_i16, le_u32, read_u32_le};
use crate::units::Ratio;
use vstd::prelude::*;

verus! {

pub const REG_RES_CONF: u8 = 0x10;
pub const REG_CTRL_REG_1: u8 = 0x20;
pub const REG_CTRL_REG_2: u8 = 0x21;
pub const REG_STATUS_REG: u8 = 0x27;
pub const REG_PRESS_OUT_XL: u8 = 0x28;
pub const REG_PRESS_OUT_L: u8 = 0x29;
pub const REG_PRESS_OUT_H: u8 = 0x2a;
pub const REG_TEMP_OUT_L: u8 = 0x2b;
pub const REG_TEMP_OUT_H: u8 = 0x2c;
pub const REG_FIFO_CTRL: u8 = 0x2e;

/// Status bit: a new temperature sample is available.
pub const STATUS_T_DA: u8 = 0x01;
/// Status bit: a new pressure sample is available.
pub const STATUS_P_DA: u8 = 0x02;

/// The status byte `status` reports a new temperature sample.
pub open spec fn temperature_available(status: u8) -> bool {
    status & STATUS_T_DA != 0
}

/// The status byte `status` reports a new pressure sample.
pub open spec fn pressure_available(status: u8) -> bool {
    status & STATUS_P_DA != 0
}

/// The temperature sample's registers, low byte first.
pub open spec fn temperature_registers() -> Seq<u8> {
    seq![REG_TEMP_OUT_L, REG_TEMP_OUT_H]
}

/// The pressure sample's registers, least significant byte first.
pub open spec fn pressure_registers() -> Seq<u8> {
    seq![REG_PRESS_OUT_XL, REG_PRESS_OUT_L, REG_PRESS_OUT_H]
}

/// Power on, output data rate.
pub const CTRL_REG_1_INIT: u8 = 0xc4;
/// Number of internal samples averaged.
pub const RES_CONF_INIT: u8 = 0x05;
/// FIFO mode.
pub const FIFO_CTRL_INIT: u8 = 0xc0;
/// One-shot autozero.
pub const CTRL_REG_2_INIT: u8 = 0x40;

/// Raw temperature codes per degree Celsius.
pub const TEMPERATURE_DIVISOR: i64 = 480;
/// The temperature at raw code zero, in 480ths of a degree Celsius (42.5 °C).
pub const TEMPERATURE_OFFSET: i64 = 20400;
/// Raw pressure codes per hectopascal.
pub const PRESSURE_DIVISOR: i64 = 4096;

/// The temperature, in degrees Celsius, of the raw code `raw`:
/// `raw / 480 + 42.5`.
pub open spec fn temperature_spec(raw: int) -> Ratio {
    Ratio { num: (raw + TEMPERATURE_OFFSET) as i64, den: TEMPERATURE_DIVISOR }
}

/// The pressure, in hectopascals, of the raw code `raw`: `raw / 4096`.
pub open spec fn pressure_spec(raw: int) -> Ratio {
    Ratio { num: raw as i64, den: PRESSURE_DIVISOR }
}

/// Converts a raw temperature code to degrees Celsius.
pub fn celsius_from_raw(raw: i16) -> (r: Ratio)
    ensures
        r == temperature_spec(raw as int),
        r.num == raw + 20400,
        r.den == 480,
        r.wf(),
{
    Ratio { num: raw as i64 + TEMPERATURE_OFFSET, den: TEMPERATURE_DIVISOR }
}

/// Converts a raw pressure code to hectopascals.
pub fn hectopascals_from_raw(raw: u32) -> (r: Ratio)
    ensures
        r == pressure_spec(raw as int),
        r.num == raw,
        r.den == 4096,
        r.wf(),
{
    Ratio { num: raw as i64, den: PRESSURE_DIVISOR }
}

/// The start-up writes, in order.
pub open spec fn init_ops<E>() -> Seq<BusOp<E>> {
    seq![
        BusOp::Write { register: REG_CTRL_REG_1, value: CTRL_REG_1_INIT },
        BusOp::Write { register: REG_RES_CONF, value: RES_CONF_INIT },
        BusOp::Write { register: REG_FIFO_CTRL, value: FIFO_CTRL_INIT },
        BusOp::Write { register: REG_CTRL_REG_2, value: CTRL_REG_2_INIT },
    ]
}

/// An LPS25H on its own bus handle.
pub struct Lps25h<B: I2cBus> {
    i2cdev: SensorHandle<B>,
}

impl<B: I2cBus> Lps25h<B> {
    /// The register operations that have completed on the chip.
    pub closed spec fn ops(&self) -> Seq<BusOp<B::Error>> {
        self.i2cdev.ops()
    }

    /// Powers the chip on; every bus error ends the start-up. What happens
    /// on the bus is stated by `start`.
    pub fn new(i2cdev: B) -> (r: Result<Lps25h<B>, B::Error>)
        ensures
            r matches Ok(p) ==> p.ops() == init_ops::<B::Error>(),
    {
        let mut handle = SensorHandle::new(i2cdev);
        Self::start(&mut handle)?;
        Ok(Self::from_started(handle))
    }

    /// A driver over a handle whose whole start-up has completed.
    pub fn from_started(i2cdev: SensorHandle<B>) -> (r: Lps25h<B>)
        requires
            i2cdev.ops() == init_ops::<B::Error>(),
        ensures
            r.ops() == i2cdev.ops(),
    {
        Lps25h { i2cdev }
    }

    /// Runs the start-up writes on a fresh handle, in order. The first bus
    /// error ends it and is returned.
    pub fn start(i2cdev: &mut SensorHandle<B>) -> (r: Result<(), B::Error>)
        requires
            old(i2cdev).ops() == Seq::<BusOp<B::Error>>::empty(),
        ensures
            match r {
                Ok(_) => final(i2cdev).ops() == init_ops::<B::Error>(),
                Err(e) => failed_writes(final(i2cdev).ops(), init_ops(), e),
            },
    {
        let ghost init = init_ops::<B::Error>();
        if let Err(e) = i2cdev.write_register(REG_CTRL_REG_1, CTRL_REG_1_INIT) {
            proof {
                assert(i2cdev.ops().drop_last() =~= init.take(0));
            }
            return Err(e);
        }
        if let Err(e) = i2cdev.write_register(REG_RES_CONF, RES_CONF_INIT) {
            proof {
                assert(i2cdev.ops().drop_last() =~= init.take(1));
            }
            return Err(e);
        }
        if let Err(e) = i2cdev.write_register(REG_FIFO_CTRL, FIFO_CTRL_INIT) {
            proof {
                assert(i2cdev.ops().drop_last() =~= init.take(2));
            }
            return Err(e);
        }
        if let Err(e) = i2cdev.write_register(REG_CTRL_REG_2, CTRL_REG_2_INIT) {
            proof {
                assert(i2cdev.ops().drop_last() =~= init.take(3));
            }
            return Err(e);
        }
        proof {
            assert(i2cdev.ops() =~= init);
        }
        Ok(())
    }

    /// Reads the status register: bit 0 is set when a new temperature
    /// sample is available, bit 1 when a new pressure sample is.
    pub fn status(&mut self) -> (r: Result<u8, B::Error>)
        ensures
            r matches Err(e) ==> failed_reads(old(self).ops(), final(self).ops(), seq![REG_STATUS_REG], e),
            match r {
                Ok(s) => {
                    &&& followed_by_reads(old(self).ops(), final(self).ops(), seq![REG_STATUS_REG])
                    &&& fresh(old(self).ops(), final(self).ops()) == seq![s]
                },
                Err(e) => final(self).ops() == old(self).ops().push(
                    BusOp::ReadFailed { register: REG_STATUS_REG, error: e },
                ),
            },
    {
        self.i2cdev.read_register(REG_STATUS_REG)
    }

    /// Reads the raw temperature code, low byte first.
    pub fn get_temp(&mut self) -> (r: Result<i16, B::Error>)
        ensures
            r matches Err(e) ==> failed_reads(old(self).ops(), final(self).ops(), temperature_registers(), e),
            r matches Ok(v) ==> {
                let b = fresh(old(self).ops(), final(self).ops());
                &&& followed_by_reads(
                    old(self).ops(),
                    final(self).ops(),
                    seq![REG_TEMP_OUT_L, REG_TEMP_OUT_H],
                )
                &&& v as int == le_i16(b[0], b[1])
            },
    {
        self.i2cdev.read_le_i16(REG_TEMP_OUT_L, REG_TEMP_OUT_H)
    }

    /// Reads the temperature sample in degrees Celsius.
    pub fn get_temp_celcius(&mut self) -> (r: Result<Ratio, B::Error>)
        ensures
            r matches Err(e) ==> failed_reads(old(self).ops(), final(self).ops(), temperature_registers(), e),
            r matches Ok(v) ==> {
                let b = fresh(old(self).ops(), final(self).ops());
                &&& followed_by_reads(
                    old(self).ops(),
                    final(self).ops(),
                    seq![REG_TEMP_OUT_L, REG_TEMP_OUT_H],
                )
                &&& v == temperature_spec(le_i16(b[0], b[1]))
                &&& v.wf()
            },
    {
        let c = self.get_temp()?;
        Ok(celsius_from_raw(c))
    }

    /// Reads the raw pressure code: three bytes, least significant first.
    pub fn get_pressure(&mut self) -> (r: Result<u32, B::Error>)
        ensures
            r matches Err(e) ==> failed_reads(old(self).ops(), final(self).ops(), pressure_registers(), e),
            r matches Ok(v) ==> {
                let b = fresh(old(self).ops(), final(self).ops());
                &&& followed_by_reads(
                    old(self).ops(),
                    final(self).ops(),
                    seq![REG_PRESS_OUT_XL, REG_PRESS_OUT_L, REG_PRESS_OUT_H],
                )
                &&& v as int == le_u32(b[0], b[1], b[2], 0)
                &&& v < 0x100_0000
            },
    {
        let ghost start = self.i2cdev.ops();
        let ghost all = seq![REG_PRESS_OUT_XL, REG_PRESS_OUT_L, REG_PRESS_OUT_H];
        let ghost none = Seq::<u8>::empty();
        let ghost one = seq![REG_PRESS_OUT_XL];
        let ghost two = seq![REG_PRESS_OUT_XL, REG_PRESS_OUT_L];
        proof {
            lemma_no_reads(start);
            assert(none.push(REG_PRESS_OUT_XL) =~= one);
            assert(one.push(REG_PRESS_OUT_L) =~= two);
            assert(two.push(REG_PRESS_OUT_H) =~= all);
            assert(one + seq![REG_PRESS_OUT_L, REG_PRESS_OUT_H] =~= all);
            assert(two + seq![REG_PRESS_OUT_H] =~= all);
        }
        let xl = match self.i2cdev.read_next(REG_PRESS_OUT_XL, Ghost(start), Ghost(none)) {
            Ok(v) => v,
            Err(e) => {
                proof {
                    lemma_failure_within(start, self.i2cdev.ops(), one, seq![REG_PRESS_OUT_L, REG_PRESS_OUT_H], e);
                }
                return Err(e);
            },
        };
        let l = match self.i2cdev.read_next(REG_PRESS_OUT_L, Ghost(start), Ghost(one)) {
            Ok(v) => v,
            Err(e) => {
                proof {
                    lemma_failure_within(start, self.i2cdev.ops(), two, seq![REG_PRESS_OUT_H], e);
                }
                return Err(e);
            },
        };
        let h = self.i2cdev.read_next(REG_PRESS_OUT_H, Ghost(start), Ghost(two))?;
        proof {
            assert(fresh(start, self.i2cdev.ops()) =~= seq![xl, l, h]);
        }
        Ok(read_u32_le(xl, l, h, 0))
    }

    /// Reads the pressure sample in hectopascals.
    pub fn get_pressure_hpa(&mut self) -> (r: Result<Ratio, B::Error>)
        ensures
            r matches Err(e) ==> failed_reads(old(self).ops(), final(self).ops(), pressure_registers(), e),
            r matches Ok(v) ==> {
                let b = fresh(old(self).ops(), final(self).ops());
                &&& followed_by_reads(
                    old(self).ops(),
                    final(self).ops(),
                    seq![REG_PRESS_OUT_XL, REG_PRESS_OUT_L, REG_PRESS_OUT_H],
                )
                &&& v == pressure_spec(le_u32(b[0], b[1], b[2], 0))
                &&& v.wf()
            },
    {
        let c = self.get_pressure()?;
        Ok(hectopascals_from_raw(c))
    }
}

} // verus!
