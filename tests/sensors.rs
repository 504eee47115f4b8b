use sensehat::hts221::{self, Calibration, Hts221, LinearModel};
use sensehat::lps25h::{self, Lps25h};
use sensehat::lsm9ds1::{Lsm9ds1, SensorSelection};
use sensehat::{I2cBus, Ratio, SenseHat, SenseHatError, SensorHandle};
use std::cell::RefCell;
use std::rc::Rc;

#[derive(Debug, PartialEq)]
struct BusFault;

/// A register file standing in for a chip on the bus.
/// Every completed operation: `true` for a write, the register, the byte.
type Trace = Rc<RefCell<Vec<(bool, u8, u8)>>>;

struct SimBus {
    regs: [u8; 256],
    trace: Trace,
    failing: Option<u8>,
}

impl SimBus {
    fn new() -> SimBus {
        SimBus { regs: [0; 256], trace: Rc::new(RefCell::new(Vec::new())), failing: None }
    }

    fn set16(&mut self, low: u8, value: i16) {
        let b = value.to_le_bytes();
        self.regs[low as usize] = b[0];
        self.regs[low as usize + 1] = b[1];
    }
}

impl I2cBus for SimBus {
    type Error = BusFault;

    fn smbus_read_byte_data(&mut self, register: u8) -> Result<u8, BusFault> {
        if self.failing == Some(register) {
            return Err(BusFault);
        }
        self.trace.borrow_mut().push((false, register, self.regs[register as usize]));
        Ok(self.regs[register as usize])
    }

    fn smbus_write_byte_data(&mut self, register: u8, value: u8) -> Result<(), BusFault> {
        if self.failing == Some(register) {
            return Err(BusFault);
        }
        self.trace.borrow_mut().push((true, register, value));
        self.regs[register as usize] = value;
        Ok(())
    }
}

/// The humidity chip of the worked example: T0 = 0 °C at code 0, T1 = 1 °C
/// at code 1000, H0 = 20 % at code 0, H1 = 50 % at code 2000.
fn example_humidity_bus() -> SimBus {
    let mut bus = SimBus::new();
    bus.regs[hts221::REG_T0_C_8 as usize] = 0x00;
    bus.regs[hts221::REG_T1_C_8 as usize] = 0x08;
    bus.regs[hts221::REG_T1_T0 as usize] = 0x00;
    bus.set16(hts221::REG_T0_OUT, 0);
    bus.set16(hts221::REG_T1_OUT, 1000);
    bus.regs[hts221::REG_H0_H_2 as usize] = 0x28;
    bus.regs[hts221::REG_H1_H_2 as usize] = 0x64;
    bus.set16(hts221::REG_H0_T0_OUT, 0);
    bus.set16(hts221::REG_H1_T0_OUT, 2000);
    bus.regs[hts221::REG_STATUS as usize] = 0x03;
    bus.set16(hts221::REG_TEMP_OUT_L, 500);
    bus.set16(hts221::REG_HUMIDITY_OUT_L, 1000);
    bus
}

fn pressure_bus(status: u8, raw_pressure: u32, raw_temp: i16) -> SimBus {
    let mut bus = SimBus::new();
    bus.regs[lps25h::REG_STATUS_REG as usize] = status;
    let p = raw_pressure.to_le_bytes();
    bus.regs[lps25h::REG_PRESS_OUT_XL as usize] = p[0];
    bus.regs[lps25h::REG_PRESS_OUT_L as usize] = p[1];
    bus.regs[lps25h::REG_PRESS_OUT_H as usize] = p[2];
    bus.set16(lps25h::REG_TEMP_OUT_L, raw_temp);
    bus
}

fn value(r: Ratio) -> f64 {
    r.num as f64 / r.den as f64
}

#[test]
fn humidity_driver_worked_example() {
    let mut chip = Hts221::new(example_humidity_bus()).unwrap();
    let t = chip.get_temperature_celcius().unwrap();
    assert!(t.same_value(&Ratio::new(1, 2)));
    let h = chip.get_relative_humidity_percent().unwrap();
    assert!(h.same_value(&Ratio::new(35, 1)));
}

#[test]
fn facade_worked_example() {
    let mut hat = SenseHat::new(example_humidity_bus(), pressure_bus(0x03, 4096000, 0)).unwrap();
    let t = hat.get_temperature_from_humidity().unwrap();
    assert!(t.as_celsius().same_value(&Ratio::new(1, 2)));
    let h = hat.get_humidity().unwrap();
    assert!(h.as_percent().same_value(&Ratio::new(35, 1)));
    assert_eq!(value(h.as_percent()), 35.0);
}

#[test]
fn failed_calibration_read_ends_start_up() {
    let mut bus = example_humidity_bus();
    bus.failing = Some(0xff);
    let chip = Hts221::new(bus);
    assert!(chip.is_ok());
    let mut bus = example_humidity_bus();
    bus.failing = Some(hts221::REG_H1_T0_OUT + 1);
    match Hts221::new(bus) {
        Err(SenseHatError::I2CError(BusFault)) => {}
        _ => panic!("a failed calibration read must end the start-up"),
    }
}

#[test]
fn humidity_start_up_sequence() {
    let bus = example_humidity_bus();
    let trace = bus.trace.clone();
    let _chip = Hts221::new(bus).unwrap();
    let ops: Vec<(bool, u8)> = trace.borrow().iter().map(|&(w, r, _)| (w, r)).collect();
    assert_eq!(
        ops,
        vec![
            (true, 0x20),
            (true, 0x10),
            (false, 0x32),
            (false, 0x35),
            (false, 0x33),
            (false, 0x35),
            (false, 0x3c),
            (false, 0x3d),
            (false, 0x3e),
            (false, 0x3f),
            (false, 0x30),
            (false, 0x31),
            (false, 0x36),
            (false, 0x37),
            (false, 0x3a),
            (false, 0x3b),
        ]
    );
    assert_eq!(trace.borrow()[0], (true, 0x20, 0x87));
    assert_eq!(trace.borrow()[1], (true, 0x10, 0x1b));
}

#[test]
fn pressure_start_up_sequence() {
    let bus = pressure_bus(0, 0, 0);
    let trace = bus.trace.clone();
    let _chip = Lps25h::new(bus).unwrap();
    assert_eq!(
        *trace.borrow(),
        vec![(true, 0x20, 0xc4), (true, 0x10, 0x05), (true, 0x2e, 0xc0), (true, 0x21, 0x40)]
    );
}

#[test]
fn not_ready_reads_only_the_status() {
    let mut bus = example_humidity_bus();
    bus.regs[hts221::REG_STATUS as usize] = 0x00;
    let trace = bus.trace.clone();
    let mut hat = SenseHat::new(bus, pressure_bus(0, 0, 0)).unwrap();
    let before = trace.borrow().len();
    assert!(matches!(hat.get_humidity(), Err(SenseHatError::NotReady)));
    assert_eq!(trace.borrow()[before..], [(false, 0x27, 0x00)]);
}

#[test]
fn degenerate_temperature_calibration_is_an_error() {
    let mut bus = example_humidity_bus();
    bus.set16(hts221::REG_T1_OUT, 0);
    match Hts221::new(bus) {
        Err(SenseHatError::CalibrationError) => {}
        _ => panic!("equal calibration codes must be refused"),
    }
}

#[test]
fn degenerate_humidity_calibration_is_an_error() {
    let mut bus = example_humidity_bus();
    bus.set16(hts221::REG_H1_T0_OUT, 0);
    assert!(matches!(
        SenseHat::new(bus, pressure_bus(0x03, 0, 0)),
        Err(SenseHatError::CalibrationError)
    ));
}

#[test]
fn status_bit_zero_clear_means_not_ready() {
    for status in 0u16..256 {
        let status = status as u8;
        let mut bus = example_humidity_bus();
        bus.regs[hts221::REG_STATUS as usize] = status;
        let mut hat = SenseHat::new(bus, pressure_bus(status, 4096, 480)).unwrap();
        let t = hat.get_temperature_from_humidity();
        let p = hat.get_temperature_from_pressure();
        if status & 1 == 0 {
            assert!(matches!(t, Err(SenseHatError::NotReady)));
            assert!(matches!(p, Err(SenseHatError::NotReady)));
        } else {
            assert!(t.unwrap().as_celsius().same_value(&Ratio::new(1, 2)));
            assert!(p.unwrap().as_celsius().same_value(&Ratio::new(87, 2)));
        }
    }
}

#[test]
fn status_bit_one_gates_humidity_and_pressure() {
    let mut bus = example_humidity_bus();
    bus.regs[hts221::REG_STATUS as usize] = 0x01;
    let mut hat = SenseHat::new(bus, pressure_bus(0x01, 4096, 0)).unwrap();
    assert!(matches!(hat.get_humidity(), Err(SenseHatError::NotReady)));
    assert!(matches!(hat.get_pressure(), Err(SenseHatError::NotReady)));
}

#[test]
fn two_byte_fields_are_signed_little_endian() {
    let mut bus = example_humidity_bus();
    bus.regs[hts221::REG_TEMP_OUT_L as usize] = 0x00;
    bus.regs[hts221::REG_TEMP_OUT_H as usize] = 0x01;
    bus.regs[hts221::REG_HUMIDITY_OUT_L as usize] = 0xff;
    bus.regs[hts221::REG_HUMIDITY_OUT_H as usize] = 0xff;
    let mut chip = Hts221::new(bus).unwrap();
    assert_eq!(chip.get_temperature().unwrap(), 256);
    assert_eq!(chip.get_relative_humidity().unwrap(), -1);

    let mut p = Lps25h::new(pressure_bus(0x03, 0, 0)).unwrap();
    assert_eq!(p.get_temp().unwrap(), 0);
    let mut bus = pressure_bus(0x03, 0, 0);
    bus.regs[lps25h::REG_TEMP_OUT_L as usize] = 0x34;
    bus.regs[lps25h::REG_TEMP_OUT_H as usize] = 0x92;
    let mut p = Lps25h::new(bus).unwrap();
    assert_eq!(p.get_temp().unwrap(), 0x9234u16 as i16);
}

#[test]
fn pressure_fixed_formula() {
    let r = lps25h::hectopascals_from_raw(4096000);
    assert!(r.same_value(&Ratio::new(1000, 1)));
    assert_eq!(value(r), 1000.0);
    let mut hat = SenseHat::new(example_humidity_bus(), pressure_bus(0x02, 4096000, 0)).unwrap();
    let p = hat.get_pressure().unwrap();
    assert!(p.as_hectopascals().same_value(&Ratio::new(1000, 1)));
}

#[test]
fn pressure_reads_three_bytes_low_first() {
    let mut p = Lps25h::new(pressure_bus(0x03, 0x12_3456, 0)).unwrap();
    assert_eq!(p.get_pressure().unwrap(), 0x12_3456);
    let hpa = p.get_pressure_hpa().unwrap();
    assert!(hpa.same_value(&Ratio::new(0x12_3456, 4096)));
}

#[test]
fn pressure_temperature_formula() {
    let r = lps25h::celsius_from_raw(0);
    assert_eq!(value(r), 42.5);
    assert!(r.same_value(&Ratio::new(85, 2)));
    let r = lps25h::celsius_from_raw(-480);
    assert!(r.same_value(&Ratio::new(83, 2)));
    let mut hat = SenseHat::new(example_humidity_bus(), pressure_bus(0x01, 0, 0)).unwrap();
    let t = hat.get_temperature_from_pressure().unwrap();
    assert_eq!(value(t.as_celsius()), 42.5);
}

#[test]
fn pressure_converts_to_other_units() {
    let r = lps25h::hectopascals_from_raw(4096000);
    let p = measurements::Pressure::from_hectopascals(value(r));
    assert_eq!(p.as_bars(), 1.0);
    assert!((p.as_psi() - 14.5038).abs() < 1e-4);
}

#[test]
fn calibration_is_linear() {
    let c = Calibration::from_registers(80, 200, -300, 700, 40, 120, -1000, 9000).unwrap();
    let slope = Ratio::new(c.temperature.slope_num, c.temperature.den);
    let (r1, r2) = (-1234i16, 4321i16);
    let t1 = c.temperature_at(r1);
    let t2 = c.temperature_at(r2);
    let diff = Ratio::new(t2.num - t1.num, t1.den * (r2 as i64 - r1 as i64));
    assert!(diff.same_value(&slope));
    // (200 - 80) / 8 degrees over 1000 codes
    assert!(slope.same_value(&Ratio::new(15, 1000)));
    assert!(c.temperature_at(-300).same_value(&Ratio::new(10, 1)));
    assert!(c.temperature_at(700).same_value(&Ratio::new(25, 1)));
    assert!(c.humidity_at(-1000).same_value(&Ratio::new(20, 1)));
    assert!(c.humidity_at(9000).same_value(&Ratio::new(60, 1)));
}

#[test]
fn calibration_with_falling_codes() {
    let m = LinearModel::through_points(1000, 0, 0, 8, 8).unwrap();
    assert!(m.den > 0);
    assert!(m.apply(500).same_value(&Ratio::new(1, 2)));
    assert!(m.apply(0).same_value(&Ratio::new(1, 1)));
    assert!(LinearModel::through_points(7, 0, 7, 8, 8).is_none());
}

#[test]
fn calibration_temperature_codes_take_two_high_bits() {
    let mut bus = example_humidity_bus();
    // T0 = 0x100 / 8 = 32 °C, T1 = 0x208 / 8 = 65 °C.
    bus.regs[hts221::REG_T0_C_8 as usize] = 0x00;
    bus.regs[hts221::REG_T1_C_8 as usize] = 0x08;
    bus.regs[hts221::REG_T1_T0 as usize] = 0b1001;
    bus.set16(hts221::REG_TEMP_OUT_L, 0);
    let mut chip = Hts221::new(bus).unwrap();
    assert!(chip.get_temperature_celcius().unwrap().same_value(&Ratio::new(32, 1)));
    let mut bus = example_humidity_bus();
    bus.regs[hts221::REG_T1_T0 as usize] = 0b1001;
    bus.set16(hts221::REG_TEMP_OUT_L, 1000);
    let mut chip = Hts221::new(bus).unwrap();
    assert!(chip.get_temperature_celcius().unwrap().same_value(&Ratio::new(65, 1)));
}

#[test]
fn humidity_is_not_clamped() {
    let mut bus = example_humidity_bus();
    bus.set16(hts221::REG_HUMIDITY_OUT_L, 6000);
    let mut chip = Hts221::new(bus).unwrap();
    assert!(chip.get_relative_humidity_percent().unwrap().same_value(&Ratio::new(110, 1)));
}

#[test]
fn bus_error_is_passed_on() {
    let mut bus = example_humidity_bus();
    bus.failing = Some(hts221::REG_CTRL1);
    assert!(matches!(Hts221::new(bus), Err(SenseHatError::I2CError(BusFault))));
    let mut p = pressure_bus(0x03, 0, 0);
    p.failing = Some(lps25h::REG_PRESS_OUT_H);
    let mut hat = SenseHat::new(example_humidity_bus(), p).unwrap();
    assert!(matches!(hat.get_pressure(), Err(SenseHatError::I2CError(BusFault))));
    assert!(hat.get_temperature_from_pressure().is_ok());
    let mut p = pressure_bus(0x03, 0, 0);
    p.failing = Some(lps25h::REG_CTRL_REG_2);
    assert!(matches!(
        SenseHat::new(example_humidity_bus(), p),
        Err(SenseHatError::I2CError(BusFault))
    ));
}

#[test]
fn inertial_unit_without_fusion_library() {
    let mut imu = Lsm9ds1::new().unwrap();
    assert_eq!(imu.sensors(), SensorSelection { gyro: true, accel: true, compass: true });
    imu.set_compass_only();
    assert_eq!(imu.sensors(), SensorSelection { gyro: false, accel: false, compass: true });
    imu.set_gyro_only();
    assert_eq!(imu.sensors(), SensorSelection { gyro: true, accel: false, compass: false });
    imu.set_accel_only();
    assert_eq!(imu.sensors(), SensorSelection { gyro: false, accel: true, compass: false });
    assert!(!imu.imu_read());
    imu.set_fusion();
    assert_eq!(imu.sensors(), SensorSelection { gyro: true, accel: true, compass: true });
}

#[test]
fn ratio_compares_by_value() {
    assert!(Ratio::new(4000, 8000).same_value(&Ratio::new(1, 2)));
    assert!(!Ratio::new(4001, 8000).same_value(&Ratio::new(1, 2)));
    assert!(Ratio::new(-3, 4).same_value(&Ratio::new(-6, 8)));
}

#[test]
fn inertial_unit_error_message() {
    assert_eq!(sensehat::lsm9ds1::Error::RTIMULibError.message(), "RTIMULib Error");
}

#[test]
fn relative_humidity_keeps_its_value() {
    let rh = sensehat::RelativeHumidity::from_percent(Ratio::new(71, 2));
    assert_eq!(rh.as_percent(), Ratio::new(71, 2));
    let t = sensehat::Temperature::from_celsius(Ratio::new(-7, 4));
    assert_eq!(t.as_celsius(), Ratio::new(-7, 4));
    let p = sensehat::Pressure::from_hectopascals(Ratio::new(1013, 1));
    assert_eq!(p.as_hectopascals(), Ratio::new(1013, 1));
}

#[test]
fn failed_read_ends_the_sample() {
    let mut bus = example_humidity_bus();
    bus.failing = Some(hts221::REG_TEMP_OUT_L);
    let trace = bus.trace.clone();
    let mut hat = SenseHat::new(bus, pressure_bus(0x03, 0, 0)).unwrap();
    let before = trace.borrow().len();
    assert!(matches!(hat.get_temperature_from_humidity(), Err(SenseHatError::I2CError(BusFault))));
    // The status read completed; the failed low byte ended the sample.
    assert_eq!(trace.borrow()[before..], [(false, 0x27, 0x03)]);
}

#[test]
fn failed_status_read_is_a_bus_error() {
    let mut p = pressure_bus(0x03, 4096000, 0);
    p.failing = Some(lps25h::REG_STATUS_REG);
    let trace = p.trace.clone();
    let mut hat = SenseHat::new(example_humidity_bus(), p).unwrap();
    let before = trace.borrow().len();
    assert!(matches!(hat.get_pressure(), Err(SenseHatError::I2CError(BusFault))));
    assert_eq!(trace.borrow().len(), before);
}

#[test]
fn humidity_start_reports_each_outcome() {
    let mut handle = SensorHandle::new(example_humidity_bus());
    let cal = Hts221::start(&mut handle).unwrap();
    assert_eq!(cal.temperature, LinearModel { slope_num: 8, intercept_num: 0, den: 8000 });
    let chip = Hts221::from_started(handle, cal);
    drop(chip);

    let mut bus = example_humidity_bus();
    bus.failing = Some(hts221::REG_AV_CONF);
    let trace = bus.trace.clone();
    let mut handle = SensorHandle::new(bus);
    assert!(matches!(Hts221::start(&mut handle), Err(SenseHatError::I2CError(BusFault))));
    assert_eq!(*trace.borrow(), vec![(true, 0x20, 0x87)]);

    let mut bus = example_humidity_bus();
    bus.set16(hts221::REG_H1_T0_OUT, 0);
    let trace = bus.trace.clone();
    let mut handle = SensorHandle::new(bus);
    assert!(matches!(Hts221::start(&mut handle), Err(SenseHatError::CalibrationError)));
    assert_eq!(trace.borrow().len(), 16);
}

#[test]
fn pressure_start_stops_at_failed_write() {
    let mut bus = pressure_bus(0, 0, 0);
    bus.failing = Some(lps25h::REG_FIFO_CTRL);
    let trace = bus.trace.clone();
    let mut handle = SensorHandle::new(bus);
    assert_eq!(Lps25h::start(&mut handle), Err(BusFault));
    assert_eq!(*trace.borrow(), vec![(true, 0x20, 0xc4), (true, 0x10, 0x05)]);
}

#[test]
fn board_start_is_all_or_nothing() {
    let mut bus = example_humidity_bus();
    bus.failing = Some(hts221::REG_T0_OUT);
    let p = pressure_bus(0, 0, 0);
    let pressure_trace = p.trace.clone();
    let mut humidity = SensorHandle::new(bus);
    let mut pressure = SensorHandle::new(p);
    assert!(matches!(
        SenseHat::start(&mut humidity, &mut pressure),
        Err(SenseHatError::I2CError(BusFault))
    ));
    assert!(pressure_trace.borrow().is_empty());

    let mut humidity = SensorHandle::new(example_humidity_bus());
    let mut pressure = SensorHandle::new(pressure_bus(0, 0, 0));
    let cal = SenseHat::start(&mut humidity, &mut pressure).unwrap();
    assert!(cal.humidity_at(1000).same_value(&Ratio::new(35, 1)));
}
