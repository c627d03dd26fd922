//! Data model of the telemetry client: connection target and telemetry
//! record.  Numeric readings are fixed-point centi-units (hundredths of
//! a volt, a percent, a hertz, a watt, a second), so that one schema
//! covers every sensor with two decimals of precision.  An absent field
//! means "not reported by this device" and is never coerced to zero.

use vstd::prelude::*;

verus! {

/// Identity of a single telemetry server; immutable for the lifetime
/// of a client instance.
pub struct NutConfig {
    pub host: String,
    pub port: u16,
    pub username: Option<String>,
    pub password: Option<String>,
}

/// One point-in-time snapshot of UPS electrical and operational
/// variables.
pub struct UpsData {
    /// Operational status token set, e.g. `OL`, `OB LB`; empty when the
    /// device did not report one.
    pub status: String,
    pub battery_charge: Option<i64>,
    pub battery_runtime: Option<i64>,
    pub battery_voltage: Option<i64>,
    pub input_voltage: Option<i64>,
    pub input_frequency: Option<i64>,
    pub output_voltage: Option<i64>,
    pub output_frequency: Option<i64>,
    pub ups_load: Option<i64>,
    pub ups_realpower_nominal: Option<i64>,
    /// Real power drawn, either reported or derived from load and
    /// nominal power by `calculate_power`.
    pub power_watts: Option<i64>,
    pub ups_mfr: Option<String>,
    pub ups_model: Option<String>,
    pub ups_serial: Option<String>,
    pub ups_firmware: Option<String>,
    pub ups_type: Option<String>,
    pub ups_beeper_status: Option<String>,
    pub battery_type: Option<String>,
    pub input_voltage_fault: Option<i64>,
    pub output_voltage_nominal: Option<i64>,
    pub output_frequency_nominal: Option<i64>,
    pub driver_name: Option<String>,
    pub driver_version: Option<String>,
    /// Readings some devices report under vendor keys; the fixed
    /// vocabulary does not map them yet, so the parser leaves them
    /// absent and keeps the raw text in `extended_vars`.
    pub ambient_temp: Option<i64>,
    pub output_current: Option<i64>,
    pub battery_current: Option<i64>,
    pub ups_realpower: Option<i64>,
    /// Vendor-specific variables outside the fixed vocabulary, kept
    /// verbatim in the order reported.
    pub extended_vars: Vec<(String, String)>,
}

/// Mathematical model of a telemetry record.
pub struct UpsModel {
    pub status: Seq<char>,
    pub battery_charge: Option<i64>,
    pub battery_runtime: Option<i64>,
    pub battery_voltage: Option<i64>,
    pub input_voltage: Option<i64>,
    pub input_frequency: Option<i64>,
    pub output_voltage: Option<i64>,
    pub output_frequency: Option<i64>,
    pub ups_load: Option<i64>,
    pub ups_realpower_nominal: Option<i64>,
    pub power_watts: Option<i64>,
    pub ups_mfr: Option<Seq<char>>,
    pub ups_model: Option<Seq<char>>,
    pub ups_serial: Option<Seq<char>>,
    pub ups_firmware: Option<Seq<char>>,
    pub ups_type: Option<Seq<char>>,
    pub ups_beeper_status: Option<Seq<char>>,
    pub battery_type: Option<Seq<char>>,
    pub input_voltage_fault: Option<i64>,
    pub output_voltage_nominal: Option<i64>,
    pub output_frequency_nominal: Option<i64>,
    pub driver_name: Option<Seq<char>>,
    pub driver_version: Option<Seq<char>>,
    pub ambient_temp: Option<i64>,
    pub output_current: Option<i64>,
    pub battery_current: Option<i64>,
    pub ups_realpower: Option<i64>,
    pub extended_vars: Seq<(Seq<char>, Seq<char>)>,
}

impl View for UpsData {
    type V = UpsModel;

    open spec fn view(&self) -> UpsModel {
        UpsModel {
            status: self.status@,
            battery_charge: self.battery_charge,
            battery_runtime: self.battery_runtime,
            battery_voltage: self.battery_voltage,
            input_voltage: self.input_voltage,
            input_frequency: self.input_frequency,
            output_voltage: self.output_voltage,
            output_frequency: self.output_frequency,
            ups_load: self.ups_load,
            ups_realpower_nominal: self.ups_realpower_nominal,
            power_watts: self.power_watts,
            ups_mfr: self.ups_mfr.deep_view(),
            ups_model: self.ups_model.deep_view(),
            ups_serial: self.ups_serial.deep_view(),
            ups_firmware: self.ups_firmware.deep_view(),
            ups_type: self.ups_type.deep_view(),
            ups_beeper_status: self.ups_beeper_status.deep_view(),
            battery_type: self.battery_type.deep_view(),
            input_voltage_fault: self.input_voltage_fault,
            output_voltage_nominal: self.output_voltage_nominal,
            output_frequency_nominal: self.output_frequency_nominal,
            driver_name: self.driver_name.deep_view(),
            driver_version: self.driver_version.deep_view(),
            ambient_temp: self.ambient_temp,
            output_current: self.output_current,
            battery_current: self.battery_current,
            ups_realpower: self.ups_realpower,
            extended_vars: self.extended_vars.deep_view(),
        }
    }
}

impl UpsModel {
    /// The record with every field absent and an empty status.
    pub open spec fn empty() -> UpsModel {
        UpsModel {
            status: Seq::<char>::empty(),
            battery_charge: None,
            battery_runtime: None,
            battery_voltage: None,
            input_voltage: None,
            input_frequency: None,
            output_voltage: None,
            output_frequency: None,
            ups_load: None,
            ups_realpower_nominal: None,
            power_watts: None,
            ups_mfr: None,
            ups_model: None,
            ups_serial: None,
            ups_firmware: None,
            ups_type: None,
            ups_beeper_status: None,
            battery_type: None,
            input_voltage_fault: None,
            output_voltage_nominal: None,
            output_frequency_nominal: None,
            driver_name: None,
            driver_version: None,
            ambient_temp: None,
            output_current: None,
            battery_current: None,
            ups_realpower: None,
            extended_vars: Seq::empty(),
        }
    }
}

/// Integer division truncating toward zero, as machine division does;
/// the divisor is positive in every use.
pub open spec fn trunc_div(a: int, b: int) -> int {
    if a >= 0 {
        a / b
    } else {
        -((-a) / b)
    }
}

/// Derived real power in centi-watts from a load in centi-percent and a
/// nominal power in centi-watts: `nominal * (load / 100)`, truncated to
/// the centi-watt.
pub open spec fn derived_power(load: int, nominal: int) -> int {
    trunc_div(load * nominal, 10000)
}

/// What `power_watts` holds after derivation: the reported value when
/// present; otherwise nominal power scaled by load when both are
/// present and the product fits; otherwise absent.
pub open spec fn spec_power(m: UpsModel) -> Option<i64> {
    if m.power_watts is Some {
        m.power_watts
    } else if m.ups_load is Some && m.ups_realpower_nominal is Some {
        let w = derived_power(m.ups_load.unwrap() as int, m.ups_realpower_nominal.unwrap() as int);
        if i64::MIN <= w <= i64::MAX {
            Some(w as i64)
        } else {
            None
        }
    } else {
        None
    }
}

/// A record after power derivation: only `power_watts` changes.
pub open spec fn with_power(m: UpsModel) -> UpsModel {
    UpsModel { power_watts: spec_power(m), ..m }
}

/// A record missing direct power but carrying both load and nominal
/// power derives exactly `nominal * (load / 100)`, truncated to the
/// centi-watt, whenever that value fits the field.
pub proof fn lemma_power_derivation(m: UpsModel)
    requires
        m.power_watts is None,
        m.ups_load is Some,
        m.ups_realpower_nominal is Some,
        i64::MIN <= derived_power(
            m.ups_load.unwrap() as int,
            m.ups_realpower_nominal.unwrap() as int,
        ) <= i64::MAX,
    ensures
        with_power(m).power_watts == Some(
            derived_power(m.ups_load.unwrap() as int, m.ups_realpower_nominal.unwrap() as int)
                as i64,
        ),
{
}

impl UpsData {
    /// Fill in `power_watts` when the device does not report power
    /// directly but reports both load and nominal power.
    pub fn calculate_power(&mut self)
        ensures
            final(self)@ == with_power(old(self)@),
    {
        if self.power_watts.is_none() {
            if let (Some(load), Some(nominal)) = (self.ups_load, self.ups_realpower_nominal) {
                proof {
                    assert(i128::MIN <= (load as int) * (nominal as int) <= i128::MAX)
                        by (nonlinear_arith)
                        requires
                            i64::MIN <= load <= i64::MAX,
                            i64::MIN <= nominal <= i64::MAX,
                    ;
                }
                let prod: i128 = (load as i128) * (nominal as i128);
                let w = match prod.checked_div(10000) {
                    Some(w) => w,
                    None => 0,
                };
                proof {
                    assert(w == derived_power(load as int, nominal as int));
                }
                if w >= i64::MIN as i128 && w <= i64::MAX as i128 {
                    self.power_watts = Some(w as i64);
                }
            }
        }
    }
}

} // verus!
