//! Driver for the HTS221 humidity and temperature sensor.
//!
//! At start-up the driver powers the chip on, reads its factory calibration
//! and fits one straight line for temperature and one for humidity through
//! the two calibration points of each. Every sample is then mapped through
//! the line. All values are exact fractions.

use crate::bus::{
    failed_reads, failed_writes, fresh, followed_by_reads, lemma_failure_within, lemma_no_reads, BusOp,
    I2cBus, SensorHandle,
};
use crate::bytes::{le_i16, read_i16_le};
use crate::units::{frac_eq, Ratio};
use crate::SenseHatError;
use vstd::prelude::*;

verus! {

pub const REG_AV_CONF: u8 = 0x10;
pub const REG_CTRL1: u8 = 0x20;
pub const REG_STATUS: u8 = 0x27;
pub const REG_HUMIDITY_OUT_L: u8 = 0x28;
pub const REG_HUMIDITY_OUT_H: u8 = 0x29;
pub const REG_TEMP_OUT_L: u8 = 0x2a;
pub const REG_TEMP_OUT_H: u8 = 0x2b;
pub const REG_H0_H_2: u8 = 0x30;
pub const REG_H1_H_2: u8 = 0x31;
pub const REG_T0_C_8: u8 = 0x32;
pub const REG_T1_C_8: u8 = 0x33;
pub const REG_T1_T0: u8 = 0x35;
pub const REG_H0_T0_OUT: u8 = 0x36;
pub const REG_H1_T0_OUT: u8 = 0x3a;
pub const REG_T0_OUT: u8 = 0x3c;
pub const REG_T1_OUT: u8 = 0x3e;

/// Status bit: a new temperature sample is available.
pub const STATUS_T_DA: u8 = 0x01;
/// Status bit: a new humidity sample is available.
pub const STATUS_H_DA: u8 = 0x02;

/// The status byte `status` reports a new temperature sample.
pub open spec fn temperature_available(status: u8) -> bool {
    status & STATUS_T_DA != 0
}

/// The status byte `status` reports a new humidity sample.
pub open spec fn humidity_available(status: u8) -> bool {
    status & STATUS_H_DA != 0
}

/// The temperature sample's registers, low byte first.
pub open spec fn temperature_registers() -> Seq<u8> {
    seq![REG_TEMP_OUT_L, REG_TEMP_OUT_H]
}

/// The humidity sample's registers, low byte first.
pub open spec fn humidity_registers() -> Seq<u8> {
    seq![REG_HUMIDITY_OUT_L, REG_HUMIDITY_OUT_H]
}

/// Power on, continuous conversion, default data rate.
pub const CTRL1_INIT: u8 = 0x87;
/// Number of internal samples averaged for temperature and humidity.
pub const AV_CONF_INIT: u8 = 0x1b;

/// Calibration temperatures are stored in eighths of a degree Celsius.
pub const TEMPERATURE_SCALE: i64 = 8;
/// Calibration humidities are stored in halves of a percent.
pub const HUMIDITY_SCALE: i64 = 2;

/// The straight line `raw -> (slope_num * raw + intercept_num) / den`.
#[derive(Clone, Copy, Debug, PartialEq, Eq)]
pub struct LinearModel {
    pub slope_num: i64,
    pub intercept_num: i64,
    pub den: i64,
}

/// The line through the points `(x0, y0 / scale)` and `(x1, y1 / scale)`,
/// with a positive denominator; none where `x0 == x1`.
pub open spec fn spec_through(x0: int, y0: int, x1: int, y1: int, scale: int) -> Option<LinearModel> {
    let d = x1 - x0;
    let rise = y1 - y0;
    if d > 0 {
        Some(
            LinearModel {
                slope_num: rise as i64,
                intercept_num: (y0 * d - rise * x0) as i64,
                den: (scale * d) as i64,
            },
        )
    } else if d < 0 {
        Some(
            LinearModel {
                slope_num: (-rise) as i64,
                intercept_num: (rise * x0 - y0 * d) as i64,
                den: (-(scale * d)) as i64,
            },
        )
    } else {
        None
    }
}

/// The range of a 16-bit signed register value.
pub open spec fn is_i16(x: int) -> bool {
    -0x8000 <= x < 0x8000
}

proof fn lemma_through_bounds(x0: int, y0: int, d: int, rise: int, scale: int)
    requires
        is_i16(x0),
        is_i16(y0),
        -0xffff <= d <= 0xffff,
        -0xffff <= rise <= 0xffff,
        1 <= scale <= 8,
    ensures
        -0x8000_0000 <= y0 * d <= 0x8000_0000,
        -0x8000_0000 <= rise * x0 <= 0x8000_0000,
        -0x8_0000 < scale * d < 0x8_0000,
        d > 0 ==> scale * d > 0,
        d < 0 ==> scale * d < 0,
{
    assert(d > 0 ==> scale * d > 0) by (nonlinear_arith)
        requires
            1 <= scale,
    ;
    assert(d < 0 ==> scale * d < 0) by (nonlinear_arith)
        requires
            1 <= scale,
    ;
    assert(-0x8000_0000 <= y0 * d <= 0x8000_0000) by (nonlinear_arith)
        requires
            -0x8000 <= y0 <= 0x8000,
            -0xffff <= d <= 0xffff,
    ;
    assert(-0x8000_0000 <= rise * x0 <= 0x8000_0000) by (nonlinear_arith)
        requires
            -0x8000 <= x0 <= 0x8000,
            -0xffff <= rise <= 0xffff,
    ;
    assert(-0x8_0000 < scale * d < 0x8_0000) by (nonlinear_arith)
        requires
            1 <= scale <= 8,
            -0xffff <= d <= 0xffff,
    ;
}

impl LinearModel {
    /// The bounds that every line through two points with 16-bit coordinates
    /// meets, and that keep its evaluation within 64 bits.
    pub open spec fn wf(&self) -> bool {
        &&& 0 < self.den < 0x8_0000
        &&& -0x1_0000 < self.slope_num < 0x1_0000
        &&& -0x1_0000_0000 <= self.intercept_num <= 0x1_0000_0000
    }

    /// The numerator of the value at `raw`, over `den`.
    pub open spec fn value_num(&self, raw: int) -> int {
        self.slope_num * raw + self.intercept_num
    }

    /// The value of the line at `raw`.
    pub open spec fn reading(&self, raw: int) -> Ratio {
        Ratio { num: self.value_num(raw) as i64, den: self.den }
    }

    /// The line through `(x0, y0 / scale)` and `(x1, y1 / scale)`; none where
    /// the two raw codes are equal and no line is defined.
    pub fn through_points(x0: i16, y0: i16, x1: i16, y1: i16, scale: i64) -> (r: Option<LinearModel>)
        requires
            1 <= scale <= 8,
        ensures
            r == spec_through(x0 as int, y0 as int, x1 as int, y1 as int, scale as int),
            r is None <==> x0 == x1,
            r matches Some(m) ==> m.wf(),
    {
        let d: i64 = x1 as i64 - x0 as i64;
        let rise: i64 = y1 as i64 - y0 as i64;
        if d == 0 {
            return None;
        }
        proof {
            lemma_through_bounds(x0 as int, y0 as int, d as int, rise as int, scale as int);
        }
        let intercept: i64 = y0 as i64 * d - rise * x0 as i64;
        if d > 0 {
            Some(LinearModel { slope_num: rise, intercept_num: intercept, den: scale * d })
        } else {
            Some(LinearModel { slope_num: -rise, intercept_num: -intercept, den: -(scale * d) })
        }
    }

    /// The value of the line at `raw`, as the fraction `value_num(raw) / den`.
    pub fn apply(&self, raw: i16) -> (r: Ratio)
        requires
            self.wf(),
        ensures
            r == self.reading(raw as int),
            r.num == self.value_num(raw as int),
            r.den == self.den,
            r.wf(),
    {
        proof {
            assert(-0x8000_0000 <= self.slope_num * raw <= 0x8000_0000) by (nonlinear_arith)
                requires
                    -0x1_0000 < self.slope_num < 0x1_0000,
                    -0x8000 <= raw < 0x8000,
            ;
        }
        Ratio { num: self.slope_num * raw as i64 + self.intercept_num, den: self.den }
    }
}

/// A line fitted through two points with 16-bit coordinates is well formed,
/// passes through both points, and rises by `(y1 - y0) / scale` over
/// `x1 - x0`.
pub proof fn lemma_line_through_points(x0: int, y0: int, x1: int, y1: int, scale: int)
    requires
        is_i16(x0),
        is_i16(y0),
        is_i16(x1),
        is_i16(y1),
        1 <= scale <= 8,
        x0 != x1,
    ensures
        spec_through(x0, y0, x1, y1, scale) matches Some(m) && {
            &&& m.wf()
            &&& frac_eq(m.value_num(x0), m.den as int, y0, scale)
            &&& frac_eq(m.value_num(x1), m.den as int, y1, scale)
            &&& frac_eq(m.slope_num as int, m.den as int, y1 - y0, scale * (x1 - x0))
        },
{
    let d = x1 - x0;
    let rise = y1 - y0;
    lemma_through_bounds(x0, y0, d, rise, scale);
    let m = spec_through(x0, y0, x1, y1, scale)->Some_0;
    let c = y0 * d - rise * x0;
    if d > 0 {
        assert(m.slope_num == rise && m.intercept_num == c && m.den == scale * d);
        assert(rise * x0 + c == y0 * d) by (nonlinear_arith)
            requires
                c == y0 * d - rise * x0,
        ;
        assert(rise * x1 + c == y1 * d) by (nonlinear_arith)
            requires
                c == y0 * d - rise * x0,
                d == x1 - x0,
                rise == y1 - y0,
        ;
        assert(y0 * d * scale == y0 * (scale * d)) by (nonlinear_arith);
        assert(y1 * d * scale == y1 * (scale * d)) by (nonlinear_arith);
    } else {
        assert(m.slope_num == -rise && m.intercept_num == -c && m.den == -(scale * d));
        assert(-rise * x0 + -c == -(y0 * d)) by (nonlinear_arith)
            requires
                c == y0 * d - rise * x0,
        ;
        assert(-rise * x1 + -c == -(y1 * d)) by (nonlinear_arith)
            requires
                c == y0 * d - rise * x0,
                d == x1 - x0,
                rise == y1 - y0,
        ;
        assert(-(y0 * d) * scale == y0 * -(scale * d)) by (nonlinear_arith);
        assert(-(y1 * d) * scale == y1 * -(scale * d)) by (nonlinear_arith);
        assert(-rise * (scale * d) == rise * -(scale * d)) by (nonlinear_arith);
    }
}

/// Between two distinct raw codes, the readings of a line change at its
/// slope: `(reading(r2) - reading(r1)) / (r2 - r1) == slope_num / den`.
pub proof fn lemma_readings_change_at_slope(m: LinearModel, r1: i16, r2: i16)
    requires
        m.wf(),
        r1 != r2,
    ensures
        m.reading(r1 as int).den == m.reading(r2 as int).den,
        frac_eq(
            m.reading(r2 as int).num - m.reading(r1 as int).num,
            m.reading(r1 as int).den * (r2 - r1),
            m.slope_num as int,
            m.den as int,
        ),
{
    let s = m.slope_num as int;
    let den = m.den as int;
    assert(-0x8000_0000 <= s * r1 <= 0x8000_0000 && -0x8000_0000 <= s * r2 <= 0x8000_0000)
        by (nonlinear_arith)
        requires
            -0x1_0000 < s < 0x1_0000,
            -0x8000 <= r1 < 0x8000,
            -0x8000 <= r2 < 0x8000,
    ;
    assert(m.reading(r1 as int).num == s * r1 + m.intercept_num);
    assert(m.reading(r2 as int).num == s * r2 + m.intercept_num);
    assert((s * r2 + m.intercept_num - (s * r1 + m.intercept_num)) * den == s * (den * (r2 - r1)))
        by (nonlinear_arith);
}

/// The two lines fitted to the factory calibration of one chip.
#[derive(Clone, Copy, Debug, PartialEq, Eq)]
pub struct Calibration {
    /// Temperature in degrees Celsius from the raw temperature code.
    pub temperature: LinearModel,
    /// Relative humidity in percent from the raw humidity code.
    pub humidity: LinearModel,
}

/// The calibration fitted through `(t0_out, t0 / 8)` and `(t1_out, t1 / 8)`
/// for temperature, and through `(h0_t0_out, h0 / 2)` and
/// `(h1_t0_out, h1 / 2)` for humidity; none where either pair of raw codes
/// coincides.
pub open spec fn spec_calibration(
    t0: int,
    t1: int,
    t0_out: int,
    t1_out: int,
    h0: int,
    h1: int,
    h0_t0_out: int,
    h1_t0_out: int,
) -> Option<Calibration> {
    let t = spec_through(t0_out, t0, t1_out, t1, TEMPERATURE_SCALE as int);
    let h = spec_through(h0_t0_out, h0, h1_t0_out, h1, HUMIDITY_SCALE as int);
    if t is Some && h is Some {
        Some(Calibration { temperature: t->Some_0, humidity: h->Some_0 })
    } else {
        None
    }
}

/// The calibration that the fourteen calibration bytes `v` give, in the
/// order of `calibration_registers()`. The two calibration temperatures are
/// 10-bit codes: a low byte of their own and two bits each of one shared
/// register.
pub open spec fn calibration_from_bytes(v: Seq<u8>) -> Option<Calibration> {
    spec_calibration(
        le_i16(v[0], v[1] & 0x03u8),
        le_i16(v[2], (v[3] & 0x0cu8) >> 2u8),
        le_i16(v[4], v[5]),
        le_i16(v[6], v[7]),
        v[8] as int,
        v[9] as int,
        le_i16(v[10], v[11]),
        le_i16(v[12], v[13]),
    )
}

impl Calibration {
    pub open spec fn wf(&self) -> bool {
        self.temperature.wf() && self.humidity.wf()
    }

    /// The temperature that the raw code `raw` stands for.
    pub open spec fn temperature_spec(&self, raw: int) -> Ratio {
        self.temperature.reading(raw)
    }

    /// The relative humidity that the raw code `raw` stands for.
    pub open spec fn humidity_spec(&self, raw: int) -> Ratio {
        self.humidity.reading(raw)
    }

    /// Fits both lines to the calibration values; none where a line is not
    /// defined because its two raw codes coincide.
    pub fn from_registers(
        t0: i16,
        t1: i16,
        t0_out: i16,
        t1_out: i16,
        h0: u8,
        h1: u8,
        h0_t0_out: i16,
        h1_t0_out: i16,
    ) -> (r: Option<Calibration>)
        ensures
            r == spec_calibration(
                t0 as int,
                t1 as int,
                t0_out as int,
                t1_out as int,
                h0 as int,
                h1 as int,
                h0_t0_out as int,
                h1_t0_out as int,
            ),
            r is None <==> (t0_out == t1_out || h0_t0_out == h1_t0_out),
            r matches Some(c) ==> c.wf(),
    {
        let t = LinearModel::through_points(t0_out, t0, t1_out, t1, TEMPERATURE_SCALE);
        let h = LinearModel::through_points(h0_t0_out, h0 as i16, h1_t0_out, h1 as i16, HUMIDITY_SCALE);
        match (t, h) {
            (Some(temperature), Some(humidity)) => Some(Calibration { temperature, humidity }),
            _ => None,
        }
    }

    /// The temperature, in degrees Celsius, that the raw code `raw` stands for.
    pub fn temperature_at(&self, raw: i16) -> (r: Ratio)
        requires
            self.wf(),
        ensures
            r == self.temperature_spec(raw as int),
            r.wf(),
    {
        self.temperature.apply(raw)
    }

    /// The relative humidity, in percent, that the raw code `raw` stands for.
    pub fn humidity_at(&self, raw: i16) -> (r: Ratio)
        requires
            self.wf(),
        ensures
            r == self.humidity_spec(raw as int),
            r.wf(),
    {
        self.humidity.apply(raw)
    }
}

/// The power-on writes, in order.
pub open spec fn init_ops<E>() -> Seq<BusOp<E>> {
    seq![
        BusOp::Write { register: REG_CTRL1, value: CTRL1_INIT },
        BusOp::Write { register: REG_AV_CONF, value: AV_CONF_INIT },
    ]
}

/// The calibration registers, in the order they are read. The shared
/// register of the temperature codes' high bits is read once for each code.
pub open spec fn calibration_registers() -> Seq<u8> {
    seq![
        REG_T0_C_8,
        REG_T1_T0,
        REG_T1_C_8,
        REG_T1_T0,
        REG_T0_OUT,
        (REG_T0_OUT + 1) as u8,
        REG_T1_OUT,
        (REG_T1_OUT + 1) as u8,
        REG_H0_H_2,
        REG_H1_H_2,
        REG_H0_T0_OUT,
        (REG_H0_T0_OUT + 1) as u8,
        REG_H1_T0_OUT,
        (REG_H1_T0_OUT + 1) as u8,
    ]
}

/// `ops` is the whole start-up of a chip: the power-on writes, then one read
/// of each calibration register; and `cal` is what those reads give.
pub open spec fn started<E>(ops: Seq<BusOp<E>>, cal: Calibration) -> bool {
    &&& followed_by_reads(init_ops(), ops, calibration_registers())
    &&& calibration_from_bytes(fresh(init_ops(), ops)) == Some(cal)
}

/// `ops` is a start-up that the bus error `error` ended: in a power-on
/// write, or in a calibration read.
pub open spec fn failed_start<E>(ops: Seq<BusOp<E>>, error: E) -> bool {
    ||| failed_writes(ops, init_ops(), error)
    ||| failed_reads(init_ops(), ops, calibration_registers(), error)
}

/// An HTS221 on its own bus handle, with the calibration read from it.
pub struct Hts221<B: I2cBus> {
    i2cdev: SensorHandle<B>,
    cal: Calibration,
}

impl<B: I2cBus> Hts221<B> {
    /// The register operations that have completed on the chip.
    pub closed spec fn ops(&self) -> Seq<BusOp<B::Error>> {
        self.i2cdev.ops()
    }

    /// The calibration read at start-up.
    pub closed spec fn calibration(&self) -> Calibration {
        self.cal
    }

    pub open spec fn wf(&self) -> bool {
        self.calibration().wf()
    }

    /// Powers the chip on and reads its calibration. Every bus error ends
    /// the start-up; calibration points that share a raw code are an error.
    /// What happens on the bus is stated by `start`.
    pub fn new(i2cdev: B) -> (r: Result<Hts221<B>, SenseHatError<B::Error>>)
        ensures
            r matches Ok(h) ==> h.wf() && started(h.ops(), h.calibration()),
            r matches Err(e) ==> e is I2CError || e is CalibrationError,
    {
        let mut handle = SensorHandle::new(i2cdev);
        let cal = Self::start(&mut handle)?;
        Ok(Self::from_started(handle, cal))
    }

    /// A driver over a handle whose whole start-up gave `cal`.
    pub fn from_started(i2cdev: SensorHandle<B>, cal: Calibration) -> (r: Hts221<B>)
        requires
            started(i2cdev.ops(), cal),
            cal.wf(),
        ensures
            r.ops() == i2cdev.ops(),
            r.calibration() == cal,
            r.wf(),
    {
        Hts221 { i2cdev, cal }
    }

    /// Reads the status register: bit 0 is set when a new temperature
    /// sample is available, bit 1 when a new humidity sample is.
    pub fn status(&mut self) -> (r: Result<u8, B::Error>)
        ensures
            r matches Err(e) ==> failed_reads(old(self).ops(), final(self).ops(), seq![REG_STATUS], e),
            final(self).calibration() == old(self).calibration(),
            match r {
                Ok(s) => {
                    &&& followed_by_reads(old(self).ops(), final(self).ops(), seq![REG_STATUS])
                    &&& fresh(old(self).ops(), final(self).ops()) == seq![s]
                },
                Err(e) => final(self).ops() == old(self).ops().push(
                    BusOp::ReadFailed { register: REG_STATUS, error: e },
                ),
            },
    {
        self.i2cdev.read_register(REG_STATUS)
    }

    /// Reads the raw humidity code, low byte first.
    pub fn get_relative_humidity(&mut self) -> (r: Result<i16, B::Error>)
        ensures
            r matches Err(e) ==> failed_reads(old(self).ops(), final(self).ops(), humidity_registers(), e),
            final(self).calibration() == old(self).calibration(),
            r matches Ok(v) ==> {
                let b = fresh(old(self).ops(), final(self).ops());
                &&& followed_by_reads(
                    old(self).ops(),
                    final(self).ops(),
                    seq![REG_HUMIDITY_OUT_L, REG_HUMIDITY_OUT_H],
                )
                &&& v as int == le_i16(b[0], b[1])
            },
    {
        self.i2cdev.read_le_i16(REG_HUMIDITY_OUT_L, REG_HUMIDITY_OUT_H)
    }

    /// Reads the humidity sample and maps it through the humidity line.
    pub fn get_relative_humidity_percent(&mut self) -> (r: Result<Ratio, B::Error>)
        requires
            old(self).wf(),
        ensures
            r matches Err(e) ==> failed_reads(old(self).ops(), final(self).ops(), humidity_registers(), e),
            final(self).calibration() == old(self).calibration(),
            r matches Ok(v) ==> {
                let b = fresh(old(self).ops(), final(self).ops());
                &&& followed_by_reads(
                    old(self).ops(),
                    final(self).ops(),
                    seq![REG_HUMIDITY_OUT_L, REG_HUMIDITY_OUT_H],
                )
                &&& v == old(self).calibration().humidity_spec(le_i16(b[0], b[1]))
                &&& v.wf()
            },
    {
        let c = self.get_relative_humidity()?;
        Ok(self.cal.humidity_at(c))
    }

    /// Reads the raw temperature code, low byte first.
    pub fn get_temperature(&mut self) -> (r: Result<i16, B::Error>)
        ensures
            r matches Err(e) ==> failed_reads(old(self).ops(), final(self).ops(), temperature_registers(), e),
            final(self).calibration() == old(self).calibration(),
            r matches Ok(v) ==> {
                let b = fresh(old(self).ops(), final(self).ops());
                &&& followed_by_reads(
                    old(self).ops(),
                    final(self).ops(),
                    seq![REG_TEMP_OUT_L, REG_TEMP_OUT_H],
                )
                &&& v as int == le_i16(b[0], b[1])
            },
    {
        self.i2cdev.read_le_i16(REG_TEMP_OUT_L, REG_TEMP_OUT_H)
    }

    /// Reads the temperature sample and maps it through the temperature line.
    pub fn get_temperature_celcius(&mut self) -> (r: Result<Ratio, B::Error>)
        requires
            old(self).wf(),
        ensures
            r matches Err(e) ==> failed_reads(old(self).ops(), final(self).ops(), temperature_registers(), e),
            final(self).calibration() == old(self).calibration(),
            r matches Ok(v) ==> {
                let b = fresh(old(self).ops(), final(self).ops());
                &&& followed_by_reads(
                    old(self).ops(),
                    final(self).ops(),
                    seq![REG_TEMP_OUT_L, REG_TEMP_OUT_H],
                )
                &&& v == old(self).calibration().temperature_spec(le_i16(b[0], b[1]))
                &&& v.wf()
            },
    {
        let c = self.get_temperature()?;
        Ok(self.cal.temperature_at(c))
    }

    /// Runs the start-up on a fresh handle: the two power-on writes, then
    /// one read of each calibration register. The first bus error ends it
    /// and is returned; a calibration without a line is an error after all
    /// reads have succeeded.
    pub fn start(i2cdev: &mut SensorHandle<B>) -> (r: Result<Calibration, SenseHatError<B::Error>>)
        requires
            old(i2cdev).ops() == Seq::<BusOp<B::Error>>::empty(),
        ensures
            match r {
                Ok(cal) => started(final(i2cdev).ops(), cal) && cal.wf(),
                Err(SenseHatError::CalibrationError) => {
                    &&& followed_by_reads(init_ops(), final(i2cdev).ops(), calibration_registers())
                    &&& calibration_from_bytes(fresh(init_ops(), final(i2cdev).ops())) is None
                },
                Err(SenseHatError::I2CError(e)) => failed_start(final(i2cdev).ops(), e),
                Err(_) => false,
            },
    {
        let ghost init = init_ops::<B::Error>();
        if let Err(e) = i2cdev.write_register(REG_CTRL1, CTRL1_INIT) {
            proof {
                assert(i2cdev.ops().drop_last() =~= init.take(0));
            }
            return Err(SenseHatError::I2CError(e));
        }
        if let Err(e) = i2cdev.write_register(REG_AV_CONF, AV_CONF_INIT) {
            proof {
                assert(i2cdev.ops().drop_last() =~= init.take(1));
            }
            return Err(SenseHatError::I2CError(e));
        }
        proof {
            assert(i2cdev.ops() =~= init);
            lemma_no_reads(init);
            assert(calibration_registers().take(0) =~= Seq::<u8>::empty());
        }
        let b0 = Self::read_calibration(i2cdev, REG_T0_C_8, 0)?;
        let b1 = Self::read_calibration(i2cdev, REG_T1_T0, 1)?;
        let t0 = read_i16_le(b0, b1 & 0x03);
        let b2 = Self::read_calibration(i2cdev, REG_T1_C_8, 2)?;
        let b3 = Self::read_calibration(i2cdev, REG_T1_T0, 3)?;
        let t1 = read_i16_le(b2, (b3 & 0x0c) >> 2);
        let b4 = Self::read_calibration(i2cdev, REG_T0_OUT, 4)?;
        let b5 = Self::read_calibration(i2cdev, REG_T0_OUT + 1, 5)?;
        let t0_out = read_i16_le(b4, b5);
        let b6 = Self::read_calibration(i2cdev, REG_T1_OUT, 6)?;
        let b7 = Self::read_calibration(i2cdev, REG_T1_OUT + 1, 7)?;
        let t1_out = read_i16_le(b6, b7);
        let h0 = Self::read_calibration(i2cdev, REG_H0_H_2, 8)?;
        let h1 = Self::read_calibration(i2cdev, REG_H1_H_2, 9)?;
        let b10 = Self::read_calibration(i2cdev, REG_H0_T0_OUT, 10)?;
        let b11 = Self::read_calibration(i2cdev, REG_H0_T0_OUT + 1, 11)?;
        let h0_t0_out = read_i16_le(b10, b11);
        let b12 = Self::read_calibration(i2cdev, REG_H1_T0_OUT, 12)?;
        let b13 = Self::read_calibration(i2cdev, REG_H1_T0_OUT + 1, 13)?;
        let h1_t0_out = read_i16_le(b12, b13);
        proof {
            assert(calibration_registers().take(14) =~= calibration_registers());
            assert(fresh(init, i2cdev.ops()) =~= seq![b0, b1, b2, b3, b4, b5, b6, b7, h0, h1, b10, b11, b12, b13]);
        }
        match Calibration::from_registers(t0, t1, t0_out, t1_out, h0, h1, h0_t0_out, h1_t0_out) {
            Some(cal) => Ok(cal),
            None => Err(SenseHatError::CalibrationError),
        }
    }

    /// Reads calibration register number `k` as the next of the start-up's
    /// calibration reads.
    fn read_calibration(i2cdev: &mut SensorHandle<B>, register: u8, k: usize) -> (r: Result<
        u8,
        SenseHatError<B::Error>,
    >)
        requires
            k < 14,
            register == calibration_registers()[k as int],
            followed_by_reads(
                init_ops(),
                old(i2cdev).ops(),
                calibration_registers().take(k as int),
            ),
        ensures
            match r {
                Ok(v) => {
                    &&& followed_by_reads(
                        init_ops(),
                        final(i2cdev).ops(),
                        calibration_registers().take(k + 1),
                    )
                    &&& fresh(init_ops(), final(i2cdev).ops()) == fresh(
                        init_ops(),
                        old(i2cdev).ops(),
                    ).push(v)
                },
                Err(SenseHatError::I2CError(e)) => failed_reads(
                    init_ops(),
                    final(i2cdev).ops(),
                    calibration_registers(),
                    e,
                ),
                Err(_) => false,
            },
    {
        let ghost regs = calibration_registers();
        let ghost done = regs.take(k as int);
        proof {
            assert(done.push(register) =~= regs.take(k + 1));
            assert(regs.take(k + 1) + regs.skip(k + 1) =~= regs);
        }
        match i2cdev.read_next(register, Ghost(init_ops()), Ghost(done)) {
            Ok(v) => Ok(v),
            Err(e) => {
                proof {
                    lemma_failure_within(init_ops(), i2cdev.ops(), regs.take(k + 1), regs.skip(k + 1), e);
                }
                Err(SenseHatError::I2CError(e))
            },
        }
    }
}

} // verus!
