use jarvis_meters::{
    has_same_identity, ConfigClient, ConfigClientConfig, EntityType, MetricType, RegisterType,
    Sample, SampleType, Value,
};

#[test]
fn entity_type_wire_mapping_round_trips() {
    for t in [EntityType::Tariff, EntityType::Zone, EntityType::Device] {
        assert_eq!(EntityType::from_wire(t.to_wire()), t);
    }
    assert_eq!(EntityType::from_wire("ENTITY_TYPE_TARIFF"), EntityType::Tariff);
    assert_eq!(EntityType::from_wire(""), EntityType::Invalid);
    assert_eq!(EntityType::from_wire("ENTITY_TYPE_SOMETHING"), EntityType::Invalid);
    assert_eq!(EntityType::Invalid.to_wire(), "");
}

#[test]
fn sample_type_wire_mapping_round_trips() {
    for t in [
        SampleType::ElectricityConsumption,
        SampleType::ElectricityProduction,
        SampleType::GasConsumption,
        SampleType::Temperature,
        SampleType::Pressure,
        SampleType::Flow,
        SampleType::Humidity,
    ] {
        assert_eq!(SampleType::from_wire(t.to_wire()), t);
    }
    assert_eq!(
        SampleType::from_wire("SAMPLE_TYPE_ELECTRICITY_CONSUMPTION"),
        SampleType::ElectricityConsumption
    );
    assert_eq!(SampleType::from_wire(""), SampleType::Invalid);
    assert_eq!(SampleType::from_wire("SAMPLE_TYPE_NOISE"), SampleType::Invalid);
}

#[test]
fn metric_type_wire_mapping_round_trips() {
    for t in [MetricType::Counter, MetricType::Gauge] {
        assert_eq!(MetricType::from_wire(t.to_wire()), t);
    }
    assert_eq!(MetricType::from_wire("METRIC_TYPE_COUNTER"), MetricType::Counter);
    assert_eq!(MetricType::from_wire("METRIC_TYPE_GAUGE"), MetricType::Gauge);
    assert_eq!(MetricType::from_wire(""), MetricType::Invalid);
    assert_eq!(MetricType::from_wire("counter"), MetricType::Invalid);
}

#[test]
fn register_type_wire_mapping_round_trips() {
    for t in [RegisterType::Input, RegisterType::Holding] {
        assert_eq!(RegisterType::from_wire(t.to_wire()), t);
    }
    assert_eq!(RegisterType::from_wire("input"), RegisterType::Input);
    assert_eq!(RegisterType::from_wire("holding"), RegisterType::Holding);
    assert_eq!(RegisterType::from_wire("INPUT"), RegisterType::Invalid);
    assert_eq!(RegisterType::from_wire(""), RegisterType::Invalid);
}

#[test]
fn identity_comparison_ignores_the_value() {
    let a = Sample {
        entity_type: EntityType::Tariff,
        entity_name: "Sagemcom XS210".to_string(),
        sample_type: SampleType::ElectricityConsumption,
        sample_name: "Levering dal".to_string(),
        metric_type: MetricType::Counter,
        value: Value::from_micros(1),
    };
    let mut b = a.clone();
    b.value = Value::from_micros(999);
    assert!(has_same_identity(&a, &b));
    b.sample_name = "Levering normaal".to_string();
    assert!(!has_same_identity(&a, &b));
}

#[test]
fn config_client_keeps_the_config_path() {
    let client =
        ConfigClient::new(ConfigClientConfig::new("test-config.yaml".to_string()).unwrap());
    assert_eq!(client.config_path(), "test-config.yaml");
}
