//! Drivers for the sensors of the Raspberry Pi Sense HAT.
//!
//! The humidity sensor (an HTS221) and the pressure sensor (an LPS25H) are
//! reached through an [`I2cBus`], one register byte at a time. Every reading is
//! returned as an exact fraction, so that the register protocol and the
//! calibration arithmetic can be stated and proved without rounding.

pub mod bus;
pub mod bytes;
pub mod hts221;
pub mod lps25h;
pub mod lsm9ds1;
mod rh;
mod units;

pub use bus::{BusOp, I2cBus, SensorHandle};
pub use hts221::Hts221;
pub use lps25h::Lps25h;
pub use rh::RelativeHumidity;
pub use units::{Pressure, Ratio, Temperature};

use bus::{
    failed_reads, failed_writes, fresh, followed_by_reads, lemma_failure_within, lemma_reads_compose,
    lemma_reads_then_failure,
};
use bytes::{le_i16, le_u32};
use hts221::Calibration;
use vstd::prelude::*;

verus! {

/// Errors that the drivers can return.
#[derive(Debug)]
pub enum SenseHatError<E> {
    /// The status register says that no new sample is available yet.
    NotReady,
    /// An error of no more specific kind.
    GenericError,
    /// A register operation failed on the bus.
    I2CError(E),
    /// The inertial measurement unit failed.
    LSM9DS1Error(lsm9ds1::Error),
    /// The two calibration points of a sensor share one raw code, so no
    /// line runs through them.
    CalibrationError,
}

/// A shortcut for results that can return `T` or `SenseHatError<E>`.
pub type SenseHatResult<T, E> = Result<T, SenseHatError<E>>;

/// The I2C address of the humidity sensor.
pub const HUMIDITY_ADDRESS: u16 = 0x5f;
/// The I2C address of the pressure sensor.
pub const PRESSURE_ADDRESS: u16 = 0x5c;

/// The value returned by the first operation after `earlier` in `later`.
pub open spec fn first_value<E>(earlier: Seq<BusOp<E>>, later: Seq<BusOp<E>>) -> u8 {
    later[earlier.len() as int].value()
}

/// The first operation after `earlier` in `later` is a read of `register`.
pub open spec fn began_with_read<E>(
    earlier: Seq<BusOp<E>>,
    later: Seq<BusOp<E>>,
    register: u8,
) -> bool {
    &&& later.len() > earlier.len()
    &&& later[earlier.len() as int] == BusOp::<E>::Read { register, value: first_value(earlier, later) }
}

/// The two environmental sensors of the board, each on its own bus handle.
pub struct SenseHat<B: I2cBus> {
    /// LPS25H pressure sensor.
    pressure_chip: Lps25h<B>,
    /// HTS221 humidity sensor.
    humidity_chip: Hts221<B>,
}

impl<B: I2cBus> SenseHat<B> {
    /// The register operations that have completed on the humidity sensor.
    pub closed spec fn humidity_ops(&self) -> Seq<BusOp<B::Error>> {
        self.humidity_chip.ops()
    }

    /// The register operations that have completed on the pressure sensor.
    pub closed spec fn pressure_ops(&self) -> Seq<BusOp<B::Error>> {
        self.pressure_chip.ops()
    }

    /// The humidity sensor's calibration, read at start-up.
    pub closed spec fn calibration(&self) -> Calibration {
        self.humidity_chip.calibration()
    }

    pub open spec fn wf(&self) -> bool {
        self.calibration().wf()
    }

    /// Starts the humidity sensor, then the pressure sensor. Either failing
    /// fails the whole. What happens on the buses is stated by `start`.
    pub fn new(humidity_dev: B, pressure_dev: B) -> (r: SenseHatResult<SenseHat<B>, B::Error>)
        ensures
            r matches Ok(hat) ==> {
                &&& hat.wf()
                &&& hts221::started(hat.humidity_ops(), hat.calibration())
                &&& hat.pressure_ops() == lps25h::init_ops::<B::Error>()
            },
            r matches Err(e) ==> e is I2CError || e is CalibrationError,
    {
        let mut humidity = SensorHandle::new(humidity_dev);
        let mut pressure = SensorHandle::new(pressure_dev);
        let cal = Self::start(&mut humidity, &mut pressure)?;
        Ok(SenseHat {
            pressure_chip: Lps25h::from_started(pressure),
            humidity_chip: Hts221::from_started(humidity, cal),
        })
    }

    /// Runs the humidity sensor's start-up, then, only if it succeeded, the
    /// pressure sensor's, each on its fresh handle. Returns the humidity
    /// sensor's calibration.
    pub fn start(humidity: &mut SensorHandle<B>, pressure: &mut SensorHandle<B>) -> (r: SenseHatResult<
        Calibration,
        B::Error,
    >)
        requires
            old(humidity).ops() == Seq::<BusOp<B::Error>>::empty(),
            old(pressure).ops() == Seq::<BusOp<B::Error>>::empty(),
        ensures
            match r {
                Ok(cal) => {
                    &&& hts221::started(final(humidity).ops(), cal)
                    &&& cal.wf()
                    &&& final(pressure).ops() == lps25h::init_ops::<B::Error>()
                },
                Err(SenseHatError::CalibrationError) => {
                    &&& followed_by_reads(
                        hts221::init_ops(),
                        final(humidity).ops(),
                        hts221::calibration_registers(),
                    )
                    &&& hts221::calibration_from_bytes(
                        fresh(hts221::init_ops(), final(humidity).ops()),
                    ) is None
                    &&& final(pressure).ops() == Seq::<BusOp<B::Error>>::empty()
                },
                Err(SenseHatError::I2CError(e)) => {
                    ||| hts221::failed_start(final(humidity).ops(), e) && final(pressure).ops()
                        == Seq::<BusOp<B::Error>>::empty()
                    ||| {
                        &&& followed_by_reads(
                            hts221::init_ops(),
                            final(humidity).ops(),
                            hts221::calibration_registers(),
                        )
                        &&& hts221::calibration_from_bytes(
                            fresh(hts221::init_ops(), final(humidity).ops()),
                        ) is Some
                        &&& failed_writes(final(pressure).ops(), lps25h::init_ops(), e)
                    }
                },
                Err(_) => false,
            },
    {
        let cal = Hts221::start(humidity)?;
        match Lps25h::start(pressure) {
            Ok(()) => Ok(cal),
            Err(e) => Err(SenseHatError::I2CError(e)),
        }
    }

    /// The temperature from the pressure sensor: less accurate than the
    /// humidity sensor's (+/- 2 degrees C), over a wider range. Not ready
    /// unless the status register reports a new temperature sample.
    pub fn get_temperature_from_pressure(&mut self) -> (r: SenseHatResult<Temperature, B::Error>)
        ensures
            final(self).humidity_ops() == old(self).humidity_ops(),
            final(self).calibration() == old(self).calibration(),
            began_with_read(old(self).pressure_ops(), final(self).pressure_ops(), lps25h::REG_STATUS_REG)
                && !lps25h::temperature_available(
                first_value(old(self).pressure_ops(), final(self).pressure_ops()),
            ) ==> r matches Err(SenseHatError::NotReady),
            match r {
                Ok(t) => {
                    let b = fresh(old(self).pressure_ops(), final(self).pressure_ops());
                    &&& followed_by_reads(
                        old(self).pressure_ops(),
                        final(self).pressure_ops(),
                        seq![lps25h::REG_STATUS_REG] + lps25h::temperature_registers(),
                    )
                    &&& lps25h::temperature_available(b[0])
                    &&& t.celsius_spec() == lps25h::temperature_spec(le_i16(b[1], b[2]))
                },
                Err(SenseHatError::NotReady) => {
                    &&& followed_by_reads(
                        old(self).pressure_ops(),
                        final(self).pressure_ops(),
                        seq![lps25h::REG_STATUS_REG],
                    )
                    &&& !lps25h::temperature_available(
                        fresh(old(self).pressure_ops(), final(self).pressure_ops())[0],
                    )
                },
                Err(SenseHatError::I2CError(e)) => {
                    &&& failed_reads(
                        old(self).pressure_ops(),
                        final(self).pressure_ops(),
                        seq![lps25h::REG_STATUS_REG] + lps25h::temperature_registers(),
                        e,
                    )
                    &&& final(self).pressure_ops().len() > old(self).pressure_ops().len() + 1
                        ==> lps25h::temperature_available(
                        first_value(old(self).pressure_ops(), final(self).pressure_ops()),
                    )
                },
                Err(_) => false,
            },
    {
        let ghost o0 = self.pressure_chip.ops();
        let status = match self.pressure_chip.status() {
            Ok(s) => s,
            Err(e) => {
                proof {
                    lemma_failure_within(
                        o0,
                        self.pressure_chip.ops(),
                        seq![lps25h::REG_STATUS_REG],
                        lps25h::temperature_registers(),
                        e,
                    );
                }
                return Err(SenseHatError::I2CError(e));
            },
        };
        let ghost o1 = self.pressure_chip.ops();
        proof {
            assert(o1[o0.len() as int] == BusOp::<B::Error>::Read {
                register: lps25h::REG_STATUS_REG,
                value: status,
            });
        }
        if (status & lps25h::STATUS_T_DA) != 0 {
            match self.pressure_chip.get_temp_celcius() {
                Ok(c) => {
                    proof {
                        lemma_reads_compose(
                            o0,
                            o1,
                            self.pressure_chip.ops(),
                            seq![lps25h::REG_STATUS_REG],
                            lps25h::temperature_registers(),
                        );
                    }
                    Ok(Temperature::from_celsius(c))
                },
                Err(e) => {
                    proof {
                        lemma_reads_then_failure(
                            o0,
                            o1,
                            self.pressure_chip.ops(),
                            seq![lps25h::REG_STATUS_REG],
                            lps25h::temperature_registers(),
                            e,
                        );
                        assert(self.pressure_chip.ops()[o0.len() as int]
                            == self.pressure_chip.ops().drop_last()[o0.len() as int]);
                        assert(self.pressure_chip.ops()[o0.len() as int] == o1[o0.len() as int]);
                    }
                    Err(SenseHatError::I2CError(e))
                },
            }
        } else {
            Err(SenseHatError::NotReady)
        }
    }

    /// The pressure from the pressure sensor. Not ready unless the status
    /// register reports a new pressure sample.
    pub fn get_pressure(&mut self) -> (r: SenseHatResult<Pressure, B::Error>)
        ensures
            final(self).humidity_ops() == old(self).humidity_ops(),
            final(self).calibration() == old(self).calibration(),
            began_with_read(old(self).pressure_ops(), final(self).pressure_ops(), lps25h::REG_STATUS_REG)
                && !lps25h::pressure_available(
                first_value(old(self).pressure_ops(), final(self).pressure_ops()),
            ) ==> r matches Err(SenseHatError::NotReady),
            match r {
                Ok(t) => {
                    let b = fresh(old(self).pressure_ops(), final(self).pressure_ops());
                    &&& followed_by_reads(
                        old(self).pressure_ops(),
                        final(self).pressure_ops(),
                        seq![lps25h::REG_STATUS_REG] + lps25h::pressure_registers(),
                    )
                    &&& lps25h::pressure_available(b[0])
                    &&& t.hectopascals_spec() == lps25h::pressure_spec(le_u32(b[1], b[2], b[3], 0))
                },
                Err(SenseHatError::NotReady) => {
                    &&& followed_by_reads(
                        old(self).pressure_ops(),
                        final(self).pressure_ops(),
                        seq![lps25h::REG_STATUS_REG],
                    )
                    &&& !lps25h::pressure_available(
                        fresh(old(self).pressure_ops(), final(self).pressure_ops())[0],
                    )
                },
                Err(SenseHatError::I2CError(e)) => {
                    &&& failed_reads(
                        old(self).pressure_ops(),
                        final(self).pressure_ops(),
                        seq![lps25h::REG_STATUS_REG] + lps25h::pressure_registers(),
                        e,
                    )
                    &&& final(self).pressure_ops().len() > old(self).pressure_ops().len() + 1
                        ==> lps25h::pressure_available(
                        first_value(old(self).pressure_ops(), final(self).pressure_ops()),
                    )
                },
                Err(_) => false,
            },
    {
        let ghost o0 = self.pressure_chip.ops();
        let status = match self.pressure_chip.status() {
            Ok(s) => s,
            Err(e) => {
                proof {
                    lemma_failure_within(
                        o0,
                        self.pressure_chip.ops(),
                        seq![lps25h::REG_STATUS_REG],
                        lps25h::pressure_registers(),
                        e,
                    );
                }
                return Err(SenseHatError::I2CError(e));
            },
        };
        let ghost o1 = self.pressure_chip.ops();
        proof {
            assert(o1[o0.len() as int] == BusOp::<B::Error>::Read {
                register: lps25h::REG_STATUS_REG,
                value: status,
            });
        }
        if (status & lps25h::STATUS_P_DA) != 0 {
            match self.pressure_chip.get_pressure_hpa() {
                Ok(c) => {
                    proof {
                        lemma_reads_compose(
                            o0,
                            o1,
                            self.pressure_chip.ops(),
                            seq![lps25h::REG_STATUS_REG],
                            lps25h::pressure_registers(),
                        );
                    }
                    Ok(Pressure::from_hectopascals(c))
                },
                Err(e) => {
                    proof {
                        lemma_reads_then_failure(
                            o0,
                            o1,
                            self.pressure_chip.ops(),
                            seq![lps25h::REG_STATUS_REG],
                            lps25h::pressure_registers(),
                            e,
                        );
                        assert(self.pressure_chip.ops()[o0.len() as int]
                            == self.pressure_chip.ops().drop_last()[o0.len() as int]);
                        assert(self.pressure_chip.ops()[o0.len() as int] == o1[o0.len() as int]);
                    }
                    Err(SenseHatError::I2CError(e))
                },
            }
        } else {
            Err(SenseHatError::NotReady)
        }
    }

    /// The temperature from the humidity sensor: more accurate than the
    /// pressure sensor's (+/- 0.5 degrees C), over a smaller range. Not
    /// ready unless the status register reports a new temperature sample.
    pub fn get_temperature_from_humidity(&mut self) -> (r: SenseHatResult<Temperature, B::Error>)
        requires
            old(self).wf(),
        ensures
            final(self).wf(),
            final(self).pressure_ops() == old(self).pressure_ops(),
            final(self).calibration() == old(self).calibration(),
            began_with_read(old(self).humidity_ops(), final(self).humidity_ops(), hts221::REG_STATUS)
                && !hts221::temperature_available(
                first_value(old(self).humidity_ops(), final(self).humidity_ops()),
            ) ==> r matches Err(SenseHatError::NotReady),
            match r {
                Ok(t) => {
                    let b = fresh(old(self).humidity_ops(), final(self).humidity_ops());
                    &&& followed_by_reads(
                        old(self).humidity_ops(),
                        final(self).humidity_ops(),
                        seq![hts221::REG_STATUS] + hts221::temperature_registers(),
                    )
                    &&& hts221::temperature_available(b[0])
                    &&& t.celsius_spec() == old(self).calibration().temperature_spec(le_i16(b[1], b[2]))
                },
                Err(SenseHatError::NotReady) => {
                    &&& followed_by_reads(
                        old(self).humidity_ops(),
                        final(self).humidity_ops(),
                        seq![hts221::REG_STATUS],
                    )
                    &&& !hts221::temperature_available(
                        fresh(old(self).humidity_ops(), final(self).humidity_ops())[0],
                    )
                },
                Err(SenseHatError::I2CError(e)) => {
                    &&& failed_reads(
                        old(self).humidity_ops(),
                        final(self).humidity_ops(),
                        seq![hts221::REG_STATUS] + hts221::temperature_registers(),
                        e,
                    )
                    &&& final(self).humidity_ops().len() > old(self).humidity_ops().len() + 1
                        ==> hts221::temperature_available(
                        first_value(old(self).humidity_ops(), final(self).humidity_ops()),
                    )
                },
                Err(_) => false,
            },
    {
        let ghost o0 = self.humidity_chip.ops();
        let status = match self.humidity_chip.status() {
            Ok(s) => s,
            Err(e) => {
                proof {
                    lemma_failure_within(
                        o0,
                        self.humidity_chip.ops(),
                        seq![hts221::REG_STATUS],
                        hts221::temperature_registers(),
                        e,
                    );
                }
                return Err(SenseHatError::I2CError(e));
            },
        };
        let ghost o1 = self.humidity_chip.ops();
        proof {
            assert(o1[o0.len() as int] == BusOp::<B::Error>::Read {
                register: hts221::REG_STATUS,
                value: status,
            });
        }
        if (status & hts221::STATUS_T_DA) != 0 {
            match self.humidity_chip.get_temperature_celcius() {
                Ok(c) => {
                    proof {
                        lemma_reads_compose(
                            o0,
                            o1,
                            self.humidity_chip.ops(),
                            seq![hts221::REG_STATUS],
                            hts221::temperature_registers(),
                        );
                    }
                    Ok(Temperature::from_celsius(c))
                },
                Err(e) => {
                    proof {
                        lemma_reads_then_failure(
                            o0,
                            o1,
                            self.humidity_chip.ops(),
                            seq![hts221::REG_STATUS],
                            hts221::temperature_registers(),
                            e,
                        );
                        assert(self.humidity_chip.ops()[o0.len() as int]
                            == self.humidity_chip.ops().drop_last()[o0.len() as int]);
                        assert(self.humidity_chip.ops()[o0.len() as int] == o1[o0.len() as int]);
                    }
                    Err(SenseHatError::I2CError(e))
                },
            }
        } else {
            Err(SenseHatError::NotReady)
        }
    }

    /// The relative humidity from the humidity sensor, in percent, as the
    /// calibration line gives it: not clamped to 0 to 100. Not ready unless
    /// the status register reports a new humidity sample.
    pub fn get_humidity(&mut self) -> (r: SenseHatResult<RelativeHumidity, B::Error>)
        requires
            old(self).wf(),
        ensures
            final(self).wf(),
            final(self).pressure_ops() == old(self).pressure_ops(),
            final(self).calibration() == old(self).calibration(),
            began_with_read(old(self).humidity_ops(), final(self).humidity_ops(), hts221::REG_STATUS)
                && !hts221::humidity_available(
                first_value(old(self).humidity_ops(), final(self).humidity_ops()),
            ) ==> r matches Err(SenseHatError::NotReady),
            match r {
                Ok(t) => {
                    let b = fresh(old(self).humidity_ops(), final(self).humidity_ops());
                    &&& followed_by_reads(
                        old(self).humidity_ops(),
                        final(self).humidity_ops(),
                        seq![hts221::REG_STATUS] + hts221::humidity_registers(),
                    )
                    &&& hts221::humidity_available(b[0])
                    &&& t.percent_spec() == old(self).calibration().humidity_spec(le_i16(b[1], b[2]))
                },
                Err(SenseHatError::NotReady) => {
                    &&& followed_by_reads(
                        old(self).humidity_ops(),
                        final(self).humidity_ops(),
                        seq![hts221::REG_STATUS],
                    )
                    &&& !hts221::humidity_available(
                        fresh(old(self).humidity_ops(), final(self).humidity_ops())[0],
                    )
                },
                Err(SenseHatError::I2CError(e)) => {
                    &&& failed_reads(
                        old(self).humidity_ops(),
                        final(self).humidity_ops(),
                        seq![hts221::REG_STATUS] + hts221::humidity_registers(),
                        e,
                    )
                    &&& final(self).humidity_ops().len() > old(self).humidity_ops().len() + 1
                        ==> hts221::humidity_available(
                        first_value(old(self).humidity_ops(), final(self).humidity_ops()),
                    )
                },
                Err(_) => false,
            },
    {
        let ghost o0 = self.humidity_chip.ops();
        let status = match self.humidity_chip.status() {
            Ok(s) => s,
            Err(e) => {
                proof {
                    lemma_failure_within(
                        o0,
                        self.humidity_chip.ops(),
                        seq![hts221::REG_STATUS],
                        hts221::humidity_registers(),
                        e,
                    );
                }
                return Err(SenseHatError::I2CError(e));
            },
        };
        let ghost o1 = self.humidity_chip.ops();
        proof {
            assert(o1[o0.len() as int] == BusOp::<B::Error>::Read {
                register: hts221::REG_STATUS,
                value: status,
            });
        }
        if (status & hts221::STATUS_H_DA) != 0 {
            match self.humidity_chip.get_relative_humidity_percent() {
                Ok(c) => {
                    proof {
                        lemma_reads_compose(
                            o0,
                            o1,
                            self.humidity_chip.ops(),
                            seq![hts221::REG_STATUS],
                            hts221::humidity_registers(),
                        );
                    }
                    Ok(RelativeHumidity::from_percent(c))
                },
                Err(e) => {
                    proof {
                        lemma_reads_then_failure(
                            o0,
                            o1,
                            self.humidity_chip.ops(),
                            seq![hts221::REG_STATUS],
                            hts221::humidity_registers(),
                            e,
                        );
                        assert(self.humidity_chip.ops()[o0.len() as int]
                            == self.humidity_chip.ops().drop_last()[o0.len() as int]);
                        assert(self.humidity_chip.ops()[o0.len() as int] == o1[o0.len() as int]);
                    }
                    Err(SenseHatError::I2CError(e))
                },
            }
        } else {
            Err(SenseHatError::NotReady)
        }
    }
}

} // verus!
