//! Acquisition and sanitization pipeline for home-energy metering devices.
//!
//! Raw readouts arrive on two paths: an ASCII line-oriented telegram protocol
//! from a serial smart meter, and a binary register-bank protocol from a
//! networked energy monitor. This crate holds the decoding and consistency
//! logic of both paths: locating and parsing fixed-offset numeric fields in
//! telegram lines, turning big-endian register words into calibrated values,
//! and the cross-cycle counter filter that rejects implausible readings.
//! Device I/O, config-file loading and the export sinks live outside.

mod config_client;
mod decimal;
mod modbus_client;
mod model;
mod p1_client;
mod sanitize;
mod stamp;
mod text;
mod value;

pub use config_client::ConfigClient;
pub use config_client::ConfigClientConfig;
pub use decimal::all_ascii_digits;
pub use decimal::decimal_body;
pub use decimal::decimal_is_negative;
pub use decimal::decimal_micros;
pub use decimal::digits_value;
pub use decimal::dot_position;
pub use decimal::fraction_digits;
pub use decimal::fraction_micros;
pub use decimal::integer_digits;
pub use decimal::is_ascii_digit;
pub use decimal::is_decimal;
pub use decimal::parse_decimal;
pub use decimal::pow10;
pub use modbus_client::ModbusClient;
pub use modbus_client::ModbusClientConfig;
pub use modbus_client::ModbusClientConfigData;
pub use modbus_client::bank_shape_ok;
pub use modbus_client::decoded_register_samples;
pub use modbus_client::modbus_source_tag;
pub use modbus_client::registers_to_u64;
pub use modbus_client::spec_register_value;
pub use modbus_client::spec_registers_to_u64;
pub use model::AcquireError;
pub use model::Config;
pub use model::ConfigData;
pub use model::ConfigSample;
pub use model::ConfigSampleData;
pub use model::EntityType;
pub use model::LocatorData;
pub use model::Measurement;
pub use model::MeasurementData;
pub use model::MetricType;
pub use model::RegisterType;
pub use model::Sample;
pub use model::SampleData;
pub use model::SampleLocator;
pub use model::SampleType;
pub use model::entity_type_of_wire;
pub use model::has_same_identity;
pub use model::lemma_entity_type_wire_round_trip;
pub use model::lemma_metric_type_wire_round_trip;
pub use model::lemma_register_type_wire_round_trip;
pub use model::lemma_sample_type_wire_round_trip;
pub use model::metric_type_of_wire;
pub use model::register_type_of_wire;
pub use model::same_identity;
pub use model::sample_type_of_wire;
pub use model::sample_views;
pub use model::spec_sample_of;
pub use p1_client::P1Client;
pub use p1_client::P1ClientConfig;
pub use p1_client::TelegramCycle;
pub use p1_client::TelegramCycleData;
pub use p1_client::collect_from_lines;
pub use p1_client::cycle_wf;
pub use p1_client::first_match;
pub use p1_client::is_prefix_of;
pub use p1_client::lemma_collect_wf;
pub use p1_client::lemma_cycle_completion;
pub use p1_client::lemma_process_line_preserves_wf;
pub use p1_client::p1_source_tag;
pub use p1_client::spec_collect;
pub use p1_client::spec_extracted_value;
pub use p1_client::spec_process_line;
pub use p1_client::telegram_matches;
pub use p1_client::telegram_prefix;
pub use p1_client::telegram_prefix_seq;
pub use sanitize::counter_implausible;
pub use sanitize::find_matching;
pub use sanitize::lemma_counter_substitution;
pub use sanitize::lemma_gauge_never_substituted;
pub use sanitize::lemma_sanitize_deterministic;
pub use sanitize::lemma_sanitize_no_previous;
pub use sanitize::lemma_sanitize_preserves_shape;
pub use sanitize::ratio_above_threshold;
pub use sanitize::sanitize_one;
pub use sanitize::sanitize_samples;
pub use sanitize::sanitize_seq;
pub use text::str_eq;
pub use value::MICROS_PER_UNIT;
pub use value::Value;
pub use value::fits_value;
pub use value::scaled_product;
