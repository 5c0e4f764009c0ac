use jarvis_meters::{sanitize_samples, EntityType, MetricType, Sample, SampleType, Value};

fn counter_sample(name: &str, micros: i64) -> Sample {
    Sample {
        entity_type: EntityType::Tariff,
        entity_name: "Sagemcom XS210".to_string(),
        sample_type: SampleType::ElectricityConsumption,
        sample_name: name.to_string(),
        metric_type: MetricType::Counter,
        value: Value::from_micros(micros),
    }
}

fn gauge_sample(name: &str, micros: i64) -> Sample {
    Sample {
        entity_type: EntityType::Device,
        entity_name: "Boiler".to_string(),
        sample_type: SampleType::Temperature,
        sample_name: name.to_string(),
        metric_type: MetricType::Gauge,
        value: Value::from_micros(micros),
    }
}

fn assert_sample_eq(a: &Sample, b: &Sample) {
    assert_eq!(a.entity_type, b.entity_type);
    assert_eq!(a.entity_name, b.entity_name);
    assert_eq!(a.sample_type, b.sample_type);
    assert_eq!(a.sample_name, b.sample_name);
    assert_eq!(a.metric_type, b.metric_type);
    assert_eq!(a.value.micros(), b.value.micros());
}

#[test]
fn gauge_is_never_substituted() {
    // A gauge that jumped far beyond any counter threshold keeps its value.
    let current = vec![gauge_sample("Temperatuur", 90_000_000)];
    let previous = vec![gauge_sample("Temperatuur", 1_000_000)];
    let out = sanitize_samples(current, &previous);
    assert_eq!(out.len(), 1);
    assert_eq!(out[0].value.micros(), 90_000_000);
}

#[test]
fn counter_decrease_is_substituted() {
    let current = vec![counter_sample("Levering dal", 99_000_000)];
    let previous = vec![counter_sample("Levering dal", 100_000_000)];
    let out = sanitize_samples(current, &previous);
    assert_eq!(out.len(), 1);
    assert_eq!(out[0].value.micros(), 100_000_000);
}

#[test]
fn counter_jump_above_ten_percent_is_substituted() {
    // 111 / 100 = 1.11 > 1.1: rejected.
    let current = vec![counter_sample("Levering dal", 111_000_000)];
    let previous = vec![counter_sample("Levering dal", 100_000_000)];
    let out = sanitize_samples(current, &previous);
    assert_eq!(out[0].value.micros(), 100_000_000);
}

#[test]
fn counter_jump_of_exactly_ten_percent_is_kept() {
    // 110 / 100 = 1.1 is not above the threshold: kept.
    let current = vec![counter_sample("Levering dal", 110_000_000)];
    let previous = vec![counter_sample("Levering dal", 100_000_000)];
    let out = sanitize_samples(current, &previous);
    assert_eq!(out[0].value.micros(), 110_000_000);
}

#[test]
fn counter_plausible_increase_is_kept() {
    let current = vec![counter_sample("Levering dal", 104_000_000)];
    let previous = vec![counter_sample("Levering dal", 100_000_000)];
    let out = sanitize_samples(current, &previous);
    assert_eq!(out[0].value.micros(), 104_000_000);
}

#[test]
fn counter_equal_value_is_kept() {
    let current = vec![counter_sample("Levering dal", 100_000_000)];
    let previous = vec![counter_sample("Levering dal", 100_000_000)];
    let out = sanitize_samples(current, &previous);
    assert_eq!(out[0].value.micros(), 100_000_000);
}

#[test]
fn positive_counter_over_zero_previous_is_substituted() {
    // Anything positive over a previous zero is an unbounded jump.
    let current = vec![counter_sample("Levering dal", 1)];
    let previous = vec![counter_sample("Levering dal", 0)];
    let out = sanitize_samples(current, &previous);
    assert_eq!(out[0].value.micros(), 0);
}

#[test]
fn zero_counter_over_zero_previous_is_kept() {
    let current = vec![counter_sample("Levering dal", 0)];
    let previous = vec![counter_sample("Levering dal", 0)];
    let out = sanitize_samples(current, &previous);
    assert_eq!(out[0].value.micros(), 0);
}

#[test]
fn sample_without_matching_previous_is_kept() {
    let current = vec![counter_sample("Levering dal", 500_000_000)];
    let previous = vec![counter_sample("Levering normaal", 100_000_000)];
    let out = sanitize_samples(current, &previous);
    assert_eq!(out[0].value.micros(), 500_000_000);
}

#[test]
fn sanitize_with_no_previous_samples_is_identity() {
    let current = vec![
        counter_sample("Levering dal", 123_000_000),
        gauge_sample("Temperatuur", 21_500_000),
    ];
    let expected = vec![
        counter_sample("Levering dal", 123_000_000),
        gauge_sample("Temperatuur", 21_500_000),
    ];
    let out = sanitize_samples(current, &Vec::new());
    assert_eq!(out.len(), 2);
    assert_sample_eq(&out[0], &expected[0]);
    assert_sample_eq(&out[1], &expected[1]);
}

#[test]
fn sanitize_preserves_order_and_count() {
    let current = vec![
        counter_sample("Levering dal", 99_000_000),
        counter_sample("Levering normaal", 104_000_000),
        gauge_sample("Temperatuur", 15_000_000),
        counter_sample("Teruglevering dal", 300_000_000),
    ];
    let previous = vec![
        counter_sample("Teruglevering dal", 100_000_000),
        counter_sample("Levering dal", 100_000_000),
        counter_sample("Levering normaal", 100_000_000),
    ];
    let out = sanitize_samples(current, &previous);
    assert_eq!(out.len(), 4);
    assert_eq!(out[0].sample_name, "Levering dal");
    assert_eq!(out[1].sample_name, "Levering normaal");
    assert_eq!(out[2].sample_name, "Temperatuur");
    assert_eq!(out[3].sample_name, "Teruglevering dal");
    // Decrease rejected, plausible increase kept, gauge kept, big jump rejected.
    assert_eq!(out[0].value.micros(), 100_000_000);
    assert_eq!(out[1].value.micros(), 104_000_000);
    assert_eq!(out[2].value.micros(), 15_000_000);
    assert_eq!(out[3].value.micros(), 100_000_000);
}

#[test]
fn sanitize_twice_with_identical_inputs_gives_identical_output() {
    let current = vec![
        counter_sample("Levering dal", 99_000_000),
        counter_sample("Levering normaal", 104_000_000),
        gauge_sample("Temperatuur", 15_000_000),
    ];
    let previous = vec![
        counter_sample("Levering dal", 100_000_000),
        counter_sample("Levering normaal", 100_000_000),
    ];
    let current_again = vec![
        counter_sample("Levering dal", 99_000_000),
        counter_sample("Levering normaal", 104_000_000),
        gauge_sample("Temperatuur", 15_000_000),
    ];
    let once = sanitize_samples(current, &previous);
    let twice = sanitize_samples(current_again, &previous);
    assert_eq!(once.len(), twice.len());
    for (a, b) in once.iter().zip(twice.iter()) {
        assert_sample_eq(a, b);
    }
}

#[test]
fn first_matching_previous_sample_wins() {
    // Two previous entries share the identity; the first decides.
    let current = vec![counter_sample("Levering dal", 99_000_000)];
    let previous = vec![
        counter_sample("Levering dal", 100_000_000),
        counter_sample("Levering dal", 90_000_000),
    ];
    let out = sanitize_samples(current, &previous);
    assert_eq!(out[0].value.micros(), 100_000_000);
}
