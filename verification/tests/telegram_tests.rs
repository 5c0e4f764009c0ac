use jarvis_meters::{
    collect_from_lines, Config, ConfigSample, EntityType, Measurement, MetricType, P1Client,
    P1ClientConfig, Sample, SampleLocator, SampleType, TelegramCycle, Value,
};

/// 3,600,000 units, in millionths.
const KWH_MULTIPLIER_MICROS: i64 = 3_600_000_000_000;

fn tariff_entry(sample_name: &str, prefix: &str) -> ConfigSample {
    ConfigSample {
        entity_type: EntityType::Tariff,
        entity_name: "Sagemcom XS210".to_string(),
        sample_type: SampleType::ElectricityConsumption,
        sample_name: sample_name.to_string(),
        metric_type: MetricType::Counter,
        value_multiplier: Value::from_micros(KWH_MULTIPLIER_MICROS),
        locator: SampleLocator::Telegram {
            prefix: prefix.to_string(),
            value_start_index: 10,
            value_length: 10,
        },
    }
}

fn four_tariff_config() -> Config {
    Config {
        location: "My Home".to_string(),
        sample_configs: vec![
            tariff_entry("Levering dal", "1-0:1.8.1"),
            tariff_entry("Levering normaal", "1-0:1.8.2"),
            tariff_entry("Teruglevering dal", "1-0:2.8.1"),
            tariff_entry("Teruglevering normaal", "1-0:2.8.2"),
        ],
    }
}

#[test]
fn extracts_value_at_fixed_offset_and_scales_it() {
    // Characters 10..20 of the line are the field "0000123.45"; the value
    // is 123.45 * 3,600,000 = 444,420,000 units.
    let config = Config {
        location: "My Home".to_string(),
        sample_configs: vec![tariff_entry("Levering dal", "1-0:1.8.1")],
    };
    let mut cycle = TelegramCycle::new();
    cycle.process_line(&config, b"1-0:1.8.1(0000123.45*kWh)\n");
    assert!(cycle.is_complete(&config));
    let samples = cycle.into_samples();
    assert_eq!(samples.len(), 1);
    assert_eq!(samples[0].sample_name, "Levering dal");
    assert_eq!(samples[0].metric_type, MetricType::Counter);
    assert_eq!(samples[0].value.micros(), 444_420_000_000_000);
}

#[test]
fn four_distinct_lines_yield_four_samples_and_a_repeat_adds_none() {
    let config = four_tariff_config();
    let mut cycle = TelegramCycle::new();
    cycle.process_line(&config, b"1-0:1.8.1(0000100.00*kWh)\n");
    cycle.process_line(&config, b"1-0:1.8.2(0000200.00*kWh)\n");
    cycle.process_line(&config, b"1-0:2.8.1(0000300.00*kWh)\n");
    assert!(!cycle.is_complete(&config));
    cycle.process_line(&config, b"1-0:2.8.2(0000400.00*kWh)\n");
    assert!(cycle.is_complete(&config));
    assert_eq!(cycle.recorded_count(), 4);
    // A fifth line repeating an already recorded prefix adds nothing.
    cycle.process_line(&config, b"1-0:1.8.1(0000999.99*kWh)\n");
    assert_eq!(cycle.recorded_count(), 4);
    let samples = cycle.into_samples();
    assert_eq!(samples.len(), 4);
    assert_eq!(samples[0].sample_name, "Levering dal");
    assert_eq!(samples[1].sample_name, "Levering normaal");
    assert_eq!(samples[2].sample_name, "Teruglevering dal");
    assert_eq!(samples[3].sample_name, "Teruglevering normaal");
    assert_eq!(samples[0].value.micros(), 360_000_000_000_000);
}

#[test]
fn unrelated_lines_do_not_terminate_or_corrupt_the_cycle() {
    let config = four_tariff_config();
    let mut cycle = TelegramCycle::new();
    cycle.process_line(&config, b"/ISK5\\2M550E-1012\n");
    cycle.process_line(&config, b"1-0:32.7.0(0230.1*V)\n");
    cycle.process_line(&config, b"!A7F2\n");
    assert!(!cycle.is_complete(&config));
    assert_eq!(cycle.recorded_count(), 0);
    cycle.process_line(&config, b"1-0:1.8.1(0000100.00*kWh)\n");
    cycle.process_line(&config, b"1-0:1.8.2(0000200.00*kWh)\n");
    cycle.process_line(&config, b"1-0:2.8.1(0000300.00*kWh)\n");
    cycle.process_line(&config, b"1-0:2.8.2(0000400.00*kWh)\n");
    assert!(cycle.is_complete(&config));
    assert_eq!(cycle.into_samples().len(), 4);
}

#[test]
fn too_short_line_abandons_the_match() {
    let config = four_tariff_config();
    let mut cycle = TelegramCycle::new();
    cycle.process_line(&config, b"1-0:1.8.1(12)\n");
    assert_eq!(cycle.recorded_count(), 0);
    // The same prefix can still be recorded from a later, complete line.
    cycle.process_line(&config, b"1-0:1.8.1(0000100.00*kWh)\n");
    assert_eq!(cycle.recorded_count(), 1);
}

#[test]
fn unparsable_field_abandons_the_match() {
    let config = four_tariff_config();
    let mut cycle = TelegramCycle::new();
    // Characters 10..20 hold no decimal literal.
    cycle.process_line(&config, b"1-0:1.8.1(not-a-number)\n");
    assert_eq!(cycle.recorded_count(), 0);
}

#[test]
fn first_matching_config_wins() {
    // Two configs whose prefixes both start the line: declared order decides.
    let config = Config {
        location: "My Home".to_string(),
        sample_configs: vec![
            tariff_entry("Short prefix", "1-0:1.8"),
            tariff_entry("Long prefix", "1-0:1.8.1"),
        ],
    };
    let mut cycle = TelegramCycle::new();
    cycle.process_line(&config, b"1-0:1.8.1(0000100.00*kWh)\n");
    let samples = cycle.into_samples();
    assert_eq!(samples.len(), 1);
    assert_eq!(samples[0].sample_name, "Short prefix");
}

#[test]
fn collect_from_lines_runs_a_whole_cycle() {
    let config = four_tariff_config();
    let lines: Vec<Vec<u8>> = vec![
        b"/ISK5\\2M550E-1012\n".to_vec(),
        b"1-0:1.8.1(0000100.00*kWh)\n".to_vec(),
        b"1-0:1.8.2(0000200.00*kWh)\n".to_vec(),
        b"garbage\n".to_vec(),
        b"1-0:2.8.1(0000300.00*kWh)\n".to_vec(),
        b"1-0:2.8.2(0000400.00*kWh)\n".to_vec(),
    ];
    let cycle = collect_from_lines(&config, &lines);
    assert!(cycle.is_complete(&config));
    let samples = cycle.into_samples();
    assert_eq!(samples.len(), 4);
    assert_eq!(samples[3].value.micros(), 4 * 360_000_000_000_000);
}

#[test]
fn assemble_wraps_samples_with_identity_source_and_location() {
    let config = four_tariff_config();
    let client = P1Client::new(P1ClientConfig::new("/dev/ttyUSB0".to_string()).unwrap());
    let lines: Vec<Vec<u8>> = vec![
        b"1-0:1.8.1(0000100.00*kWh)\n".to_vec(),
        b"1-0:1.8.2(0000200.00*kWh)\n".to_vec(),
        b"1-0:2.8.1(0000300.00*kWh)\n".to_vec(),
        b"1-0:2.8.2(0000400.00*kWh)\n".to_vec(),
    ];
    let samples = collect_from_lines(&config, &lines).into_samples();
    let measurements = client.assemble_measurements(&config, samples, None);
    assert_eq!(measurements.len(), 1);
    let m = &measurements[0];
    // The identifier comes from the UUID generator: 36 hyphenated characters.
    assert_eq!(m.id.len(), 36);
    assert_eq!(m.source, "jarvis-p1-exporter");
    assert_eq!(m.location, "My Home");
    assert_eq!(m.samples.len(), 4);
    assert_eq!(m.samples[0].value.micros(), 360_000_000_000_000);
}

#[test]
fn assemble_applies_the_counter_filter_against_the_last_measurement() {
    let config = Config {
        location: "My Home".to_string(),
        sample_configs: vec![tariff_entry("Levering dal", "1-0:1.8.1")],
    };
    let client = P1Client::new(P1ClientConfig::new("/dev/ttyUSB0".to_string()).unwrap());
    let mut cycle = TelegramCycle::new();
    // Decreased counter: 99.00 now against 100.00 previously.
    cycle.process_line(&config, b"1-0:1.8.1(0000099.00*kWh)\n");
    let samples = cycle.into_samples();

    let previous_sample = Sample {
        entity_type: EntityType::Tariff,
        entity_name: "Sagemcom XS210".to_string(),
        sample_type: SampleType::ElectricityConsumption,
        sample_name: "Levering dal".to_string(),
        metric_type: MetricType::Counter,
        value: Value::from_micros(100 * KWH_MULTIPLIER_MICROS),
    };
    let previous = Measurement {
        id: "previous".to_string(),
        source: "jarvis-p1-exporter".to_string(),
        location: "My Home".to_string(),
        samples: vec![previous_sample],
        measured_at_micros: 0,
    };
    let measurements = client.assemble_measurements(&config, samples, Some(vec![previous]));
    assert_eq!(measurements.len(), 1);
    assert_eq!(
        measurements[0].samples[0].value.micros(),
        100 * KWH_MULTIPLIER_MICROS
    );
}

#[test]
fn assemble_with_empty_previous_list_keeps_samples_unchanged() {
    let config = Config {
        location: "My Home".to_string(),
        sample_configs: vec![tariff_entry("Levering dal", "1-0:1.8.1")],
    };
    let client = P1Client::new(P1ClientConfig::new("/dev/ttyUSB0".to_string()).unwrap());
    let mut cycle = TelegramCycle::new();
    cycle.process_line(&config, b"1-0:1.8.1(0000099.00*kWh)\n");
    let samples = cycle.into_samples();
    let measurements = client.assemble_measurements(&config, samples, Some(Vec::new()));
    assert_eq!(measurements[0].samples[0].value.micros(), 99 * KWH_MULTIPLIER_MICROS);
}

#[test]
fn client_keeps_the_device_path() {
    let client = P1Client::new(P1ClientConfig::new("/dev/ttyUSB3".to_string()).unwrap());
    assert_eq!(client.usb_device_path(), "/dev/ttyUSB3");
}
