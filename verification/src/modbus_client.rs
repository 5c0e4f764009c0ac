//! The register-bank acquisition path.
//!
//! A networked energy monitor exposes numbered banks of 16-bit register
//! words. One poll cycle issues exactly one read per configured sample,
//! packs the returned words big-endian, reinterprets the first eight bytes
//! as one big-endian unsigned 64-bit integer, and scales it by the config's
//! multiplier. Unlike the telegram path, any failure aborts the whole
//! cycle: no partial measurement is ever returned.
//!
//! The network transport itself is driven by the caller, which reads one
//! word bank per config and hands them all to
//! [`ModbusClient::assemble_measurement`].

use crate::model::{
    sample_views, spec_sample_of, AcquireError, Config, ConfigSample, ConfigSampleData,
    Measurement, Sample, SampleData,
};
use crate::sanitize::{sanitize_samples, sanitize_seq};
use crate::stamp::{current_unix_micros, new_random_id};
use crate::value::{fits_value, Value};
use vstd::prelude::*;

verus! {

/// The first four register words read as one big-endian 64-bit integer:
/// each word contributes two bytes, most significant word first.
pub open spec fn spec_registers_to_u64(regs: Seq<u16>) -> int {
    regs[0] * 0x1000000000000 + regs[1] * 0x100000000 + regs[2] * 0x10000 + regs[3]
}

/// The value, in millionths, that a config assigns to a register bank: the
/// decoded 64-bit integer, in whole units, scaled by the multiplier.
pub open spec fn spec_register_value(c: ConfigSampleData, regs: Seq<u16>) -> int {
    spec_registers_to_u64(regs) * c.value_multiplier
}

/// The samples one cycle decodes, one per config, in config order.
pub open spec fn decoded_register_samples(
    configs: Seq<ConfigSampleData>,
    banks: Seq<Seq<u16>>,
) -> Seq<SampleData> {
    Seq::new(
        configs.len(),
        |i: int| spec_sample_of(configs[i], spec_register_value(configs[i], banks[i])),
    )
}

/// Whether a register bank has a shape the decoder accepts: words for at
/// least one 64-bit group, in whole 64-bit groups.
pub open spec fn bank_shape_ok(regs: Seq<u16>) -> bool {
    regs.len() >= 4 && regs.len() % 4 == 0
}

/// Packs register words big-endian and reads the first eight bytes back as
/// one big-endian unsigned 64-bit integer. Words beyond the first 64-bit
/// group are decoded but discarded.
pub fn registers_to_u64(registers: &Vec<u16>) -> (r: u64)
    requires
        bank_shape_ok(registers@),
    ensures
        r == spec_registers_to_u64(registers@),
{
    let r0 = registers[0] as u64;
    let r1 = registers[1] as u64;
    let r2 = registers[2] as u64;
    let r3 = registers[3] as u64;
    r0 * 0x1000000000000 + r1 * 0x100000000 + r2 * 0x10000 + r3
}

/// The connection parameters of the register reader.
pub struct ModbusClientConfig {
    host: String,
    port: u16,
    unit_id: u8,
}

/// The mathematical content of a [`ModbusClientConfig`].
pub ghost struct ModbusClientConfigData {
    pub host: Seq<char>,
    pub port: int,
    pub unit_id: int,
}

impl View for ModbusClientConfig {
    type V = ModbusClientConfigData;

    closed spec fn view(&self) -> ModbusClientConfigData {
        ModbusClientConfigData {
            host: self.host@,
            port: self.port as int,
            unit_id: self.unit_id as int,
        }
    }
}

impl ModbusClientConfig {
    /// Validates the connection parameters: the host must be set, and the
    /// port must be the protocol default 502 or in the private range from
    /// 49152 up that the installer menu allows.
    pub fn new(host: String, port: u16, unit_id: u8) -> (r: Result<Self, AcquireError>)
        ensures
            host@.len() == 0 ==> (r matches Err(e) && e == AcquireError::MissingHost),
            host@.len() > 0 && port != 502 && port < 49152 ==> (r matches Err(e) && e
                == AcquireError::PortOutOfRange),
            host@.len() > 0 && (port == 502 || port >= 49152) ==> (r matches Ok(c) && c@.host
                == host@ && c@.port == port as int && c@.unit_id == unit_id as int),
    {
        if host.as_str().is_empty() {
            return Err(AcquireError::MissingHost);
        }
        if port != 502 && port < 49152 {
            return Err(AcquireError::PortOutOfRange);
        }
        Ok(Self { host, port, unit_id })
    }

    /// The device host address.
    pub fn host(&self) -> (r: &str)
        ensures
            r@ == self@.host,
    {
        self.host.as_str()
    }

    /// The device port.
    pub fn port(&self) -> (r: u16)
        ensures
            r as int == self@.port,
    {
        self.port
    }

    /// The unit identifier addressed on the device.
    pub fn unit_id(&self) -> (r: u8)
        ensures
            r as int == self@.unit_id,
    {
        self.unit_id
    }
}

/// The register reader: decodes register banks into one measurement per
/// poll cycle.
pub struct ModbusClient {
    config: ModbusClientConfig,
}

impl View for ModbusClient {
    type V = ModbusClientConfigData;

    closed spec fn view(&self) -> ModbusClientConfigData {
        self.config@
    }
}

/// The fixed source tag of the register path.
pub fn modbus_source_tag() -> (r: &'static str)
    ensures
        r@ == "jarvis-modbus-exporter"@,
{
    "jarvis-modbus-exporter"
}

impl ModbusClient {
    pub fn new(config: ModbusClientConfig) -> (r: ModbusClient)
        ensures
            r@ == config@,
    {
        ModbusClient { config }
    }

    /// The device host address this client reads.
    pub fn host(&self) -> (r: &str)
        ensures
            r@ == self@.host,
    {
        self.config.host()
    }

    /// The device port this client reads.
    pub fn port(&self) -> (r: u16)
        ensures
            r as int == self@.port,
    {
        self.config.port()
    }

    /// The unit identifier this client addresses.
    pub fn unit_id(&self) -> (r: u8)
        ensures
            r as int == self@.unit_id,
    {
        self.config.unit_id()
    }

    /// Decodes one register bank into the sample its config describes.
    ///
    /// Fails exactly when the decoded integer, scaled by the multiplier,
    /// does not fit the fixed-point value range.
    pub fn get_sample(&self, sample_config: &ConfigSample, registers: &Vec<u16>) -> (r: Result<
        Sample,
        AcquireError,
    >)
        requires
            bank_shape_ok(registers@),
        ensures
            r is Ok <==> fits_value(spec_register_value(sample_config@, registers@)),
            r matches Ok(s) ==> s@ == spec_sample_of(
                sample_config@,
                spec_register_value(sample_config@, registers@),
            ),
            r matches Err(e) ==> e == AcquireError::ValueOutOfRange,
    {
        let raw = registers_to_u64(registers);
        let m = sample_config.value_multiplier.micros();
        let mmag: u128 = if m < 0 {
            (-(m as i128)) as u128
        } else {
            m as u128
        };
        proof {
            assert((raw as u128) * mmag <= 0xffff_ffff_ffff_ffffu128
                * 0x8000_0000_0000_0000u128) by (nonlinear_arith)
                requires
                    raw as u128 <= 0xffff_ffff_ffff_ffffu128,
                    mmag <= 0x8000_0000_0000_0000u128,
            ;
        }
        let mag: u128 = (raw as u128) * mmag;
        proof {
            if m < 0 {
                assert((raw as int) * (m as int) == -((raw as int) * (-(m as int))))
                    by (nonlinear_arith);
            }
            assert(spec_register_value(sample_config@, registers@) == if m < 0 {
                -(mag as int)
            } else {
                mag as int
            });
        }
        if mag > i64::MAX as u128 {
            proof {
                assert(!fits_value(spec_register_value(sample_config@, registers@)));
            }
            return Err(AcquireError::ValueOutOfRange);
        }
        let v = mag as i64;
        let micros: i64 = if m < 0 {
            -v
        } else {
            v
        };
        proof {
            assert(micros as int == spec_register_value(sample_config@, registers@));
        }
        Ok(
            Sample {
                entity_type: sample_config.entity_type,
                entity_name: sample_config.entity_name.clone(),
                sample_type: sample_config.sample_type,
                sample_name: sample_config.sample_name.clone(),
                metric_type: sample_config.metric_type,
                value: Value::from_micros(micros),
            },
        )
    }

    /// Builds one cycle's measurement from the register banks the caller
    /// read, one bank per config, in config order.
    ///
    /// Fail-fast: the cycle succeeds exactly when every bank's decoded
    /// value fits; otherwise the whole cycle is rejected and no partial
    /// measurement is returned. On success the samples are the decoded
    /// ones, with the counter filter applied against the previous
    /// measurement when there is one.
    pub fn assemble_measurement(
        &self,
        config: &Config,
        register_banks: &Vec<Vec<u16>>,
        last_measurement: Option<Measurement>,
    ) -> (r: Result<Measurement, AcquireError>)
        requires
            register_banks@.len() == config@.sample_configs.len(),
            forall|i: int|
                0 <= i < register_banks@.len() ==> bank_shape_ok(#[trigger] register_banks@[i]@),
        ensures
            r is Ok <==> (forall|i: int|
                0 <= i < config@.sample_configs.len() ==> fits_value(
                    spec_register_value(
                        #[trigger] config@.sample_configs[i],
                        register_banks@[i]@,
                    ),
                )),
            r matches Ok(m) ==> {
                let decoded = decoded_register_samples(
                    config@.sample_configs,
                    register_banks@.map_values(|b: Vec<u16>| b@),
                );
                &&& m@.id.len() == 36
                &&& m@.source == "jarvis-modbus-exporter"@
                &&& m@.location == config@.location
                &&& m@.samples == match last_measurement {
                    Option::Some(lm) => sanitize_seq(decoded, lm@.samples),
                    Option::None => decoded,
                }
            },
            r matches Err(e) ==> e == AcquireError::ValueOutOfRange,
    {
        let ghost configs = config@.sample_configs;
        let ghost banks = register_banks@.map_values(|b: Vec<u16>| b@);
        let n = config.sample_configs.len();
        let mut samples: Vec<Sample> = Vec::new();
        let mut i: usize = 0;
        while i < n
            invariant
                0 <= i <= n,
                n == config.sample_configs@.len(),
                n == register_banks@.len(),
                configs == config@.sample_configs,
                banks == register_banks@.map_values(|b: Vec<u16>| b@),
                forall|k: int|
                    0 <= k < register_banks@.len() ==> bank_shape_ok(
                        #[trigger] register_banks@[k]@,
                    ),
                forall|k: int|
                    0 <= k < i ==> fits_value(
                        spec_register_value(#[trigger] configs[k], banks[k]),
                    ),
                samples@.len() == i,
                sample_views(samples@) =~= decoded_register_samples(configs, banks).take(i as int),
            decreases n - i,
        {
            proof {
                assert(config.sample_configs@[i as int]@ == configs[i as int]);
                assert(register_banks@[i as int]@ == banks[i as int]);
            }
            let sample = match self.get_sample(&config.sample_configs[i], &register_banks[i]) {
                Ok(s) => s,
                Err(e) => {
                    proof {
                        assert(!fits_value(
                            spec_register_value(configs[i as int], banks[i as int]),
                        ));
                    }
                    return Err(e);
                },
            };
            samples.push(sample);
            proof {
                assert(sample_views(samples@) =~= decoded_register_samples(configs, banks).take(
                    i as int + 1,
                ));
            }
            i += 1;
        }
        proof {
            assert(decoded_register_samples(configs, banks).take(n as int)
                =~= decoded_register_samples(configs, banks));
        }
        let final_samples = match &last_measurement {
            Option::Some(lm) => sanitize_samples(samples, &lm.samples),
            Option::None => samples,
        };
        Ok(
            Measurement {
                id: new_random_id(),
                source: modbus_source_tag().to_owned(),
                location: config.location.clone(),
                samples: final_samples,
                measured_at_micros: current_unix_micros(),
            },
        )
    }
}

} // verus!
