//! The data model shared by both acquisition paths.
//!
//! A [`Config`] describes, in order, the physical readings to extract; each
//! [`ConfigSample`] carries the identity of one reading, its calibration
//! multiplier, and a protocol-specific locator. A poll cycle produces a
//! [`Measurement`]: an ordered list of [`Sample`]s wrapped with identity,
//! source tag, location and capture timestamp.
//!
//! The closed wire-string enumerations of the config document map to tagged
//! variants here; an unrecognized or empty wire string maps to the `Invalid`
//! sentinel, never to an error.

use crate::text::str_eq;
use crate::value::Value;
use vstd::prelude::*;

verus! {

/// What a reading belongs to.
#[derive(Clone, Copy, Debug, PartialEq, Eq, Structural)]
pub enum EntityType {
    Invalid,
    Tariff,
    Zone,
    Device,
}

/// The physical quantity a reading measures.
#[derive(Clone, Copy, Debug, PartialEq, Eq, Structural)]
pub enum SampleType {
    Invalid,
    ElectricityConsumption,
    ElectricityProduction,
    GasConsumption,
    Temperature,
    Pressure,
    Flow,
    Humidity,
    Time,
}

/// Whether a reading is cumulative or instantaneous.
#[derive(Clone, Copy, Debug, PartialEq, Eq, Structural)]
pub enum MetricType {
    Invalid,
    Counter,
    Gauge,
}

/// Which register bank a register locator reads.
#[derive(Clone, Copy, Debug, PartialEq, Eq, Structural)]
pub enum RegisterType {
    Invalid,
    Input,
    Holding,
}

/// The entity variant a config wire string denotes.
pub open spec fn entity_type_of_wire(s: Seq<char>) -> EntityType {
    if s == "ENTITY_TYPE_TARIFF"@ {
        EntityType::Tariff
    } else if s == "ENTITY_TYPE_ZONE"@ {
        EntityType::Zone
    } else if s == "ENTITY_TYPE_DEVICE"@ {
        EntityType::Device
    } else {
        EntityType::Invalid
    }
}

impl EntityType {
    /// The wire string of this variant; `Invalid` has the empty string.
    pub open spec fn spec_wire(self) -> Seq<char> {
        match self {
            EntityType::Invalid => ""@,
            EntityType::Tariff => "ENTITY_TYPE_TARIFF"@,
            EntityType::Zone => "ENTITY_TYPE_ZONE"@,
            EntityType::Device => "ENTITY_TYPE_DEVICE"@,
        }
    }

    /// Maps a config wire string to its variant; an unrecognized or empty
    /// string maps to `Invalid`, never to an error.
    pub fn from_wire(s: &str) -> (r: EntityType)
        ensures
            r == entity_type_of_wire(s@),
    {
        if str_eq(s, "ENTITY_TYPE_TARIFF") {
            EntityType::Tariff
        } else if str_eq(s, "ENTITY_TYPE_ZONE") {
            EntityType::Zone
        } else if str_eq(s, "ENTITY_TYPE_DEVICE") {
            EntityType::Device
        } else {
            EntityType::Invalid
        }
    }

    /// The wire string of this variant.
    pub fn to_wire(self) -> (r: &'static str)
        ensures
            r@ == self.spec_wire(),
    {
        match self {
            EntityType::Invalid => "",
            EntityType::Tariff => "ENTITY_TYPE_TARIFF",
            EntityType::Zone => "ENTITY_TYPE_ZONE",
            EntityType::Device => "ENTITY_TYPE_DEVICE",
        }
    }
}

/// Law: the wire mapping is bidirectional; every variant with a wire string
/// of its own round-trips through it.
pub proof fn lemma_entity_type_wire_round_trip(t: EntityType)
    requires
        t != EntityType::Invalid,
    ensures
        entity_type_of_wire(t.spec_wire()) == t,
{
    reveal_strlit("ENTITY_TYPE_TARIFF");
    reveal_strlit("ENTITY_TYPE_ZONE");
    reveal_strlit("ENTITY_TYPE_DEVICE");
    assert("ENTITY_TYPE_TARIFF"@.len() == 18);
    assert("ENTITY_TYPE_ZONE"@.len() == 16);
    assert("ENTITY_TYPE_DEVICE"@.len() == 18);
    assert("ENTITY_TYPE_TARIFF"@[12] == 'T');
    assert("ENTITY_TYPE_DEVICE"@[12] == 'D');
}

/// The sample variant a config wire string denotes.
pub open spec fn sample_type_of_wire(s: Seq<char>) -> SampleType {
    if s == "SAMPLE_TYPE_ELECTRICITY_CONSUMPTION"@ {
        SampleType::ElectricityConsumption
    } else if s == "SAMPLE_TYPE_ELECTRICITY_PRODUCTION"@ {
        SampleType::ElectricityProduction
    } else if s == "SAMPLE_TYPE_GAS_CONSUMPTION"@ {
        SampleType::GasConsumption
    } else if s == "SAMPLE_TYPE_TEMPERATURE"@ {
        SampleType::Temperature
    } else if s == "SAMPLE_TYPE_PRESSURE"@ {
        SampleType::Pressure
    } else if s == "SAMPLE_TYPE_FLOW"@ {
        SampleType::Flow
    } else if s == "SAMPLE_TYPE_HUMIDITY"@ {
        SampleType::Humidity
    } else {
        SampleType::Invalid
    }
}

impl SampleType {
    /// The wire string of this variant; `Invalid` and `Time`, which the
    /// config document cannot express, have the empty string.
    pub open spec fn spec_wire(self) -> Seq<char> {
        match self {
            SampleType::Invalid => ""@,
            SampleType::ElectricityConsumption => "SAMPLE_TYPE_ELECTRICITY_CONSUMPTION"@,
            SampleType::ElectricityProduction => "SAMPLE_TYPE_ELECTRICITY_PRODUCTION"@,
            SampleType::GasConsumption => "SAMPLE_TYPE_GAS_CONSUMPTION"@,
            SampleType::Temperature => "SAMPLE_TYPE_TEMPERATURE"@,
            SampleType::Pressure => "SAMPLE_TYPE_PRESSURE"@,
            SampleType::Flow => "SAMPLE_TYPE_FLOW"@,
            SampleType::Humidity => "SAMPLE_TYPE_HUMIDITY"@,
            SampleType::Time => ""@,
        }
    }

    /// Maps a config wire string to its variant; an unrecognized or empty
    /// string maps to `Invalid`, never to an error.
    pub fn from_wire(s: &str) -> (r: SampleType)
        ensures
            r == sample_type_of_wire(s@),
    {
        if str_eq(s, "SAMPLE_TYPE_ELECTRICITY_CONSUMPTION") {
            SampleType::ElectricityConsumption
        } else if str_eq(s, "SAMPLE_TYPE_ELECTRICITY_PRODUCTION") {
            SampleType::ElectricityProduction
        } else if str_eq(s, "SAMPLE_TYPE_GAS_CONSUMPTION") {
            SampleType::GasConsumption
        } else if str_eq(s, "SAMPLE_TYPE_TEMPERATURE") {
            SampleType::Temperature
        } else if str_eq(s, "SAMPLE_TYPE_PRESSURE") {
            SampleType::Pressure
        } else if str_eq(s, "SAMPLE_TYPE_FLOW") {
            SampleType::Flow
        } else if str_eq(s, "SAMPLE_TYPE_HUMIDITY") {
            SampleType::Humidity
        } else {
            SampleType::Invalid
        }
    }

    /// The wire string of this variant.
    pub fn to_wire(self) -> (r: &'static str)
        ensures
            r@ == self.spec_wire(),
    {
        match self {
            SampleType::Invalid => "",
            SampleType::ElectricityConsumption => "SAMPLE_TYPE_ELECTRICITY_CONSUMPTION",
            SampleType::ElectricityProduction => "SAMPLE_TYPE_ELECTRICITY_PRODUCTION",
            SampleType::GasConsumption => "SAMPLE_TYPE_GAS_CONSUMPTION",
            SampleType::Temperature => "SAMPLE_TYPE_TEMPERATURE",
            SampleType::Pressure => "SAMPLE_TYPE_PRESSURE",
            SampleType::Flow => "SAMPLE_TYPE_FLOW",
            SampleType::Humidity => "SAMPLE_TYPE_HUMIDITY",
            SampleType::Time => "",
        }
    }
}

/// Law: every sample variant with a wire string of its own round-trips
/// through the mapping.
pub proof fn lemma_sample_type_wire_round_trip(t: SampleType)
    requires
        t != SampleType::Invalid,
        t != SampleType::Time,
    ensures
        sample_type_of_wire(t.spec_wire()) == t,
{
    reveal_strlit("SAMPLE_TYPE_ELECTRICITY_CONSUMPTION");
    reveal_strlit("SAMPLE_TYPE_ELECTRICITY_PRODUCTION");
    reveal_strlit("SAMPLE_TYPE_GAS_CONSUMPTION");
    reveal_strlit("SAMPLE_TYPE_TEMPERATURE");
    reveal_strlit("SAMPLE_TYPE_PRESSURE");
    reveal_strlit("SAMPLE_TYPE_FLOW");
    reveal_strlit("SAMPLE_TYPE_HUMIDITY");
    assert("SAMPLE_TYPE_ELECTRICITY_CONSUMPTION"@.len() == 35);
    assert("SAMPLE_TYPE_ELECTRICITY_PRODUCTION"@.len() == 34);
    assert("SAMPLE_TYPE_GAS_CONSUMPTION"@.len() == 27);
    assert("SAMPLE_TYPE_TEMPERATURE"@.len() == 23);
    assert("SAMPLE_TYPE_PRESSURE"@.len() == 20);
    assert("SAMPLE_TYPE_FLOW"@.len() == 16);
    assert("SAMPLE_TYPE_HUMIDITY"@.len() == 20);
    assert("SAMPLE_TYPE_PRESSURE"@[12] == 'P');
    assert("SAMPLE_TYPE_HUMIDITY"@[12] == 'H');
}

/// The metric variant a config wire string denotes.
pub open spec fn metric_type_of_wire(s: Seq<char>) -> MetricType {
    if s == "METRIC_TYPE_COUNTER"@ {
        MetricType::Counter
    } else if s == "METRIC_TYPE_GAUGE"@ {
        MetricType::Gauge
    } else {
        MetricType::Invalid
    }
}

impl MetricType {
    /// The wire string of this variant; `Invalid` has the empty string.
    pub open spec fn spec_wire(self) -> Seq<char> {
        match self {
            MetricType::Invalid => ""@,
            MetricType::Counter => "METRIC_TYPE_COUNTER"@,
            MetricType::Gauge => "METRIC_TYPE_GAUGE"@,
        }
    }

    /// Maps a config wire string to its variant; an unrecognized or empty
    /// string maps to `Invalid`, never to an error.
    pub fn from_wire(s: &str) -> (r: MetricType)
        ensures
            r == metric_type_of_wire(s@),
    {
        if str_eq(s, "METRIC_TYPE_COUNTER") {
            MetricType::Counter
        } else if str_eq(s, "METRIC_TYPE_GAUGE") {
            MetricType::Gauge
        } else {
            MetricType::Invalid
        }
    }

    /// The wire string of this variant.
    pub fn to_wire(self) -> (r: &'static str)
        ensures
            r@ == self.spec_wire(),
    {
        match self {
            MetricType::Invalid => "",
            MetricType::Counter => "METRIC_TYPE_COUNTER",
            MetricType::Gauge => "METRIC_TYPE_GAUGE",
        }
    }
}

/// Law: every metric variant with a wire string of its own round-trips
/// through the mapping.
pub proof fn lemma_metric_type_wire_round_trip(t: MetricType)
    requires
        t != MetricType::Invalid,
    ensures
        metric_type_of_wire(t.spec_wire()) == t,
{
    reveal_strlit("METRIC_TYPE_COUNTER");
    reveal_strlit("METRIC_TYPE_GAUGE");
    assert("METRIC_TYPE_COUNTER"@.len() == 19);
    assert("METRIC_TYPE_GAUGE"@.len() == 17);
}

/// The register-bank variant a config wire string denotes.
pub open spec fn register_type_of_wire(s: Seq<char>) -> RegisterType {
    if s == "input"@ {
        RegisterType::Input
    } else if s == "holding"@ {
        RegisterType::Holding
    } else {
        RegisterType::Invalid
    }
}

impl RegisterType {
    /// The wire string of this variant; `Invalid` has the empty string.
    pub open spec fn spec_wire(self) -> Seq<char> {
        match self {
            RegisterType::Invalid => ""@,
            RegisterType::Input => "input"@,
            RegisterType::Holding => "holding"@,
        }
    }

    /// Maps a config wire string to its variant; an unrecognized or empty
    /// string maps to `Invalid`, never to an error.
    pub fn from_wire(s: &str) -> (r: RegisterType)
        ensures
            r == register_type_of_wire(s@),
    {
        if str_eq(s, "input") {
            RegisterType::Input
        } else if str_eq(s, "holding") {
            RegisterType::Holding
        } else {
            RegisterType::Invalid
        }
    }

    /// The wire string of this variant.
    pub fn to_wire(self) -> (r: &'static str)
        ensures
            r@ == self.spec_wire(),
    {
        match self {
            RegisterType::Invalid => "",
            RegisterType::Input => "input",
            RegisterType::Holding => "holding",
        }
    }
}

/// Law: every register-bank variant with a wire string of its own
/// round-trips through the mapping.
pub proof fn lemma_register_type_wire_round_trip(t: RegisterType)
    requires
        t != RegisterType::Invalid,
    ensures
        register_type_of_wire(t.spec_wire()) == t,
{
    reveal_strlit("input");
    reveal_strlit("holding");
    assert("input"@.len() == 5);
    assert("holding"@.len() == 7);
}

/// Where one reading is found, specific to the acquisition protocol.
pub enum SampleLocator {
    /// A telegram line: the line must start with `prefix`, and the value is
    /// the `value_length` bytes starting at byte `value_start_index`.
    Telegram { prefix: String, value_start_index: u16, value_length: u16 },
    /// A register read: `register_quantity` 16-bit words starting at
    /// `register_address` in the given bank.
    Register { register_type: RegisterType, register_address: u16, register_quantity: u16 },
}

/// The mathematical content of a [`SampleLocator`].
pub ghost enum LocatorData {
    Telegram { prefix: Seq<char>, value_start_index: int, value_length: int },
    Register { register_type: RegisterType, register_address: int, register_quantity: int },
}

impl View for SampleLocator {
    type V = LocatorData;

    open spec fn view(&self) -> LocatorData {
        match self {
            SampleLocator::Telegram { prefix, value_start_index, value_length } =>
                LocatorData::Telegram {
                    prefix: prefix@,
                    value_start_index: *value_start_index as int,
                    value_length: *value_length as int,
                },
            SampleLocator::Register { register_type, register_address, register_quantity } =>
                LocatorData::Register {
                    register_type: *register_type,
                    register_address: *register_address as int,
                    register_quantity: *register_quantity as int,
                },
        }
    }
}

/// The description of one physical reading to extract, loaded once per run.
pub struct ConfigSample {
    pub entity_type: EntityType,
    pub entity_name: String,
    pub sample_type: SampleType,
    pub sample_name: String,
    pub metric_type: MetricType,
    /// Scale factor applied to the raw decoded number.
    pub value_multiplier: Value,
    pub locator: SampleLocator,
}

/// The mathematical content of a [`ConfigSample`].
pub ghost struct ConfigSampleData {
    pub entity_type: EntityType,
    pub entity_name: Seq<char>,
    pub sample_type: SampleType,
    pub sample_name: Seq<char>,
    pub metric_type: MetricType,
    pub value_multiplier: int,
    pub locator: LocatorData,
}

impl View for ConfigSample {
    type V = ConfigSampleData;

    open spec fn view(&self) -> ConfigSampleData {
        ConfigSampleData {
            entity_type: self.entity_type,
            entity_name: self.entity_name@,
            sample_type: self.sample_type,
            sample_name: self.sample_name@,
            metric_type: self.metric_type,
            value_multiplier: self.value_multiplier@,
            locator: self.locator@,
        }
    }
}

/// A location and the ordered readings to extract there. Order defines match
/// precedence: the first config whose locator matches wins.
pub struct Config {
    pub location: String,
    pub sample_configs: Vec<ConfigSample>,
}

/// The mathematical content of a [`Config`].
pub ghost struct ConfigData {
    pub location: Seq<char>,
    pub sample_configs: Seq<ConfigSampleData>,
}

impl View for Config {
    type V = ConfigData;

    open spec fn view(&self) -> ConfigData {
        ConfigData {
            location: self.location@,
            sample_configs: self.sample_configs@.map_values(|c: ConfigSample| c@),
        }
    }
}

/// One decoded, calibrated reading.
pub struct Sample {
    pub entity_type: EntityType,
    pub entity_name: String,
    pub sample_type: SampleType,
    pub sample_name: String,
    pub metric_type: MetricType,
    /// The calibrated value: raw decoded number times the multiplier.
    pub value: Value,
}

/// The mathematical content of a [`Sample`].
pub ghost struct SampleData {
    pub entity_type: EntityType,
    pub entity_name: Seq<char>,
    pub sample_type: SampleType,
    pub sample_name: Seq<char>,
    pub metric_type: MetricType,
    pub value: int,
}

impl View for Sample {
    type V = SampleData;

    open spec fn view(&self) -> SampleData {
        SampleData {
            entity_type: self.entity_type,
            entity_name: self.entity_name@,
            sample_type: self.sample_type,
            sample_name: self.sample_name@,
            metric_type: self.metric_type,
            value: self.value@,
        }
    }
}

impl Clone for Sample {
    /// A clone carries the same identity and value.
    fn clone(&self) -> (r: Self)
        ensures
            r@ == self@,
    {
        Sample {
            entity_type: self.entity_type,
            entity_name: self.entity_name.clone(),
            sample_type: self.sample_type,
            sample_name: self.sample_name.clone(),
            metric_type: self.metric_type,
            value: self.value,
        }
    }
}

/// The sample a config yields for a decoded, calibrated value: the
/// identity fields are copied from the config.
pub open spec fn spec_sample_of(c: ConfigSampleData, value: int) -> SampleData {
    SampleData {
        entity_type: c.entity_type,
        entity_name: c.entity_name,
        sample_type: c.sample_type,
        sample_name: c.sample_name,
        metric_type: c.metric_type,
        value,
    }
}

/// The identity key of a sample: everything but the value.
pub open spec fn same_identity(a: SampleData, b: SampleData) -> bool {
    &&& a.entity_type == b.entity_type
    &&& a.entity_name == b.entity_name
    &&& a.sample_type == b.sample_type
    &&& a.sample_name == b.sample_name
    &&& a.metric_type == b.metric_type
}

/// Compares two samples by identity key, ignoring their values.
pub fn has_same_identity(a: &Sample, b: &Sample) -> (r: bool)
    ensures
        r == same_identity(a@, b@),
{
    a.entity_type == b.entity_type && str_eq(a.entity_name.as_str(), b.entity_name.as_str())
        && a.sample_type == b.sample_type && str_eq(
        a.sample_name.as_str(),
        b.sample_name.as_str(),
    ) && a.metric_type == b.metric_type
}

/// The sequence of sample views held by a sequence of samples.
pub open spec fn sample_views(s: Seq<Sample>) -> Seq<SampleData> {
    s.map_values(|x: Sample| x@)
}

/// One poll cycle's readings, wrapped with identity, source tag, location
/// and capture timestamp.
pub struct Measurement {
    /// A fresh unique identifier, generated per cycle.
    pub id: String,
    /// A constant naming the acquisition path that produced the cycle.
    pub source: String,
    pub location: String,
    pub samples: Vec<Sample>,
    /// Capture time as microseconds since the Unix epoch, UTC.
    pub measured_at_micros: i64,
}

/// The mathematical content of a [`Measurement`].
pub ghost struct MeasurementData {
    pub id: Seq<char>,
    pub source: Seq<char>,
    pub location: Seq<char>,
    pub samples: Seq<SampleData>,
    pub measured_at_micros: int,
}

impl View for Measurement {
    type V = MeasurementData;

    open spec fn view(&self) -> MeasurementData {
        MeasurementData {
            id: self.id@,
            source: self.source@,
            location: self.location@,
            samples: sample_views(self.samples@),
            measured_at_micros: self.measured_at_micros as int,
        }
    }
}

/// Why a cycle or a configuration was rejected.
#[derive(Clone, Copy, Debug, PartialEq, Eq, Structural)]
pub enum AcquireError {
    /// The device host is not set.
    MissingHost,
    /// The device port is neither the protocol default nor in the private
    /// range the installer menu allows.
    PortOutOfRange,
    /// A decoded register value, scaled by its multiplier, does not fit the
    /// fixed-point value range.
    ValueOutOfRange,
}

impl AcquireError {
    /// A human-readable description of the error.
    pub fn message(&self) -> (r: &'static str)
        ensures
            r@ == self.spec_message(),
    {
        match self {
            AcquireError::MissingHost => "the device host address is not set",
            AcquireError::PortOutOfRange => "the device port must be 502 or between 49152 and 65535",
            AcquireError::ValueOutOfRange => "a decoded register value is out of range",
        }
    }

    pub open spec fn spec_message(&self) -> Seq<char> {
        match self {
            AcquireError::MissingHost => "the device host address is not set"@,
            AcquireError::PortOutOfRange => "the device port must be 502 or between 49152 and 65535"@,
            AcquireError::ValueOutOfRange => "a decoded register value is out of range"@,
        }
    }
}

} // verus!
