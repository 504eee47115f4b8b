//! The LSM9DS1 inertial measurement unit, without a sensor-fusion library.
//!
//! Orientation comes from a sensor-fusion library outside this crate. This
//! handle keeps the choice of sensors that feed the estimate, and reports
//! that no new sample is ever available, so every orientation query is
//! answered "not ready".

use vstd::prelude::*;

verus! {

/// Errors of the inertial measurement unit.
#[derive(Clone, Copy, Debug, PartialEq, Eq)]
pub enum Error {
    RTIMULibError,
}

impl Error {
    /// A description of the error.
    pub fn message(&self) -> (r: String)
        ensures
            r@ == "RTIMULib Error"@,
    {
        "RTIMULib Error".to_owned()
    }
}

/// The sensors that feed the orientation estimate.
#[derive(Clone, Copy, Debug, PartialEq, Eq)]
pub struct SensorSelection {
    pub gyro: bool,
    pub accel: bool,
    pub compass: bool,
}

/// The inertial measurement unit.
pub struct Lsm9ds1 {
    sensors: SensorSelection,
}

impl Lsm9ds1 {
    /// The sensors that currently feed the estimate.
    pub closed spec fn sensors_spec(&self) -> SensorSelection {
        self.sensors
    }

    /// Opens the unit, with all three sensors selected.
    pub fn new() -> (r: Result<Lsm9ds1, Error>)
        ensures
            r matches Ok(imu) && imu.sensors_spec() == (SensorSelection {
                gyro: true,
                accel: true,
                compass: true,
            }),
    {
        Ok(Lsm9ds1 { sensors: SensorSelection { gyro: true, accel: true, compass: true } })
    }

    /// The sensors that currently feed the estimate.
    pub fn sensors(&self) -> (r: SensorSelection)
        ensures
            r == self.sensors_spec(),
    {
        self.sensors
    }

    /// Lets the unit do its work; true when a new sample can be fetched.
    /// Without a sensor-fusion library no sample ever becomes available.
    pub fn imu_read(&mut self) -> (r: bool)
        ensures
            !r,
            final(self).sensors_spec() == old(self).sensors_spec(),
    {
        false
    }

    /// Selects the gyroscope, the accelerometer and the compass.
    pub fn set_fusion(&mut self)
        ensures
            final(self).sensors_spec() == (SensorSelection { gyro: true, accel: true, compass: true }),
    {
        self.sensors = SensorSelection { gyro: true, accel: true, compass: true };
    }

    /// Selects the compass alone.
    pub fn set_compass_only(&mut self)
        ensures
            final(self).sensors_spec() == (SensorSelection {
                gyro: false,
                accel: false,
                compass: true,
            }),
    {
        self.sensors = SensorSelection { gyro: false, accel: false, compass: true };
    }

    /// Selects the gyroscope alone.
    pub fn set_gyro_only(&mut self)
        ensures
            final(self).sensors_spec() == (SensorSelection {
                gyro: true,
                accel: false,
                compass: false,
            }),
    {
        self.sensors = SensorSelection { gyro: true, accel: false, compass: false };
    }

    /// Selects the accelerometer alone.
    pub fn set_accel_only(&mut self)
        ensures
            final(self).sensors_spec() == (SensorSelection {
                gyro: false,
                accel: true,
                compass: false,
            }),
    {
        self.sensors = SensorSelection { gyro: false, accel: true, compass: false };
    }
}

} // verus!
