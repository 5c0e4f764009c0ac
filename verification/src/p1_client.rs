//! The telegram acquisition path.
//!
//! A smart meter periodically emits an ASCII readout over a serial
//! connection, one line per physical register, each line starting with a
//! fixed prefix. One poll cycle reads lines until every configured prefix
//! has been recorded once. For each line, the configs are scanned in
//! declared order and the first whose prefix starts the line wins; the value
//! is the fixed-offset field of the line, parsed as a decimal literal and
//! scaled by the config's multiplier. A line that is too short or fails to
//! parse abandons that match and the cycle goes on with the next line; a
//! prefix already recorded this cycle is ignored, so the first match per
//! prefix wins.
//!
//! The serial port itself is read by the caller, which hands each line to
//! [`TelegramCycle::process_line`] until [`TelegramCycle::is_complete`].

use crate::decimal::{decimal_micros, is_decimal, parse_decimal};
use crate::model::{
    sample_views, spec_sample_of, AcquireError, Config, ConfigSampleData, LocatorData, Measurement,
    Sample, SampleData, SampleLocator,
};
use crate::sanitize::{sanitize_samples, sanitize_seq};
use crate::stamp::{current_unix_micros, new_time_ordered_id};
use crate::value::{fits_value, scaled_product, Value};
use vstd::prelude::*;
use vstd::string::StringSliceAdditionalSpecFns;
use vstd::utf8::encode_utf8;

verus! {

/// Whether `p` is a literal prefix of `line`.
pub open spec fn is_prefix_of(p: Seq<u8>, line: Seq<u8>) -> bool {
    p.len() <= line.len() && line.take(p.len() as int) == p
}

/// Whether `c` locates a telegram reading and `line` starts with its
/// prefix.
pub open spec fn telegram_matches(c: ConfigSampleData, line: Seq<u8>) -> bool {
    match c.locator {
        LocatorData::Telegram { prefix, .. } => is_prefix_of(encode_utf8(prefix), line),
        LocatorData::Register { .. } => false,
    }
}

/// Index of the first config that matches `line`, or -1.
pub open spec fn first_match(configs: Seq<ConfigSampleData>, line: Seq<u8>) -> int
    decreases configs.len(),
{
    if configs.len() == 0 {
        -1
    } else if telegram_matches(configs[0], line) {
        0
    } else {
        let t = first_match(configs.drop_first(), line);
        if t < 0 {
            -1
        } else {
            1 + t
        }
    }
}

/// The prefix of a telegram locator; a register locator has none.
pub open spec fn telegram_prefix(c: ConfigSampleData) -> Seq<char> {
    match c.locator {
        LocatorData::Telegram { prefix, .. } => prefix,
        LocatorData::Register { .. } => Seq::empty(),
    }
}

/// The value, in millionths, that config `c` extracts from `line`: the
/// fixed-offset field parsed as a decimal literal and scaled by the
/// multiplier. `None` when the line is too short, the field is not a
/// decimal literal, or a value does not fit.
pub open spec fn spec_extracted_value(c: ConfigSampleData, line: Seq<u8>) -> Option<int> {
    match c.locator {
        LocatorData::Telegram { prefix, value_start_index, value_length } => {
            if line.len() < value_start_index + value_length {
                None
            } else {
                let field = line.subrange(value_start_index, value_start_index + value_length);
                if is_decimal(field) && fits_value(decimal_micros(field)) {
                    let scaled = scaled_product(decimal_micros(field), c.value_multiplier);
                    if fits_value(scaled) {
                        Some(scaled)
                    } else {
                        None
                    }
                } else {
                    None
                }
            }
        },
        LocatorData::Register { .. } => None,
    }
}

/// The prefixes of the telegram-locating configs, in declared order.
pub open spec fn telegram_prefix_seq(configs: Seq<ConfigSampleData>) -> Seq<Seq<char>>
    decreases configs.len(),
{
    if configs.len() == 0 {
        Seq::empty()
    } else {
        let rest = telegram_prefix_seq(configs.drop_last());
        match configs.last().locator {
            LocatorData::Telegram { prefix, .. } => rest.push(prefix),
            LocatorData::Register { .. } => rest,
        }
    }
}

/// The per-cycle state of the telegram reader: the samples recorded so far
/// and the set of prefixes already recorded, kept in recording order.
pub struct TelegramCycle {
    samples: Vec<Sample>,
    recorded_prefixes: Vec<String>,
}

/// The mathematical content of a [`TelegramCycle`].
pub ghost struct TelegramCycleData {
    pub samples: Seq<SampleData>,
    pub recorded_prefixes: Seq<Seq<char>>,
}

impl View for TelegramCycle {
    type V = TelegramCycleData;

    closed spec fn view(&self) -> TelegramCycleData {
        TelegramCycleData {
            samples: sample_views(self.samples@),
            recorded_prefixes: self.recorded_prefixes@.map_values(|s: String| s@),
        }
    }
}

/// What one line does to the cycle state: nothing when no config matches,
/// when extraction fails, or when the matched prefix is already recorded;
/// otherwise one sample is appended and the prefix recorded.
pub open spec fn spec_process_line(
    cycle: TelegramCycleData,
    configs: Seq<ConfigSampleData>,
    line: Seq<u8>,
) -> TelegramCycleData {
    let m = first_match(configs, line);
    if m < 0 {
        cycle
    } else {
        let c = configs[m];
        match spec_extracted_value(c, line) {
            Option::None => cycle,
            Option::Some(v) => {
                if cycle.recorded_prefixes.contains(telegram_prefix(c)) {
                    cycle
                } else {
                    TelegramCycleData {
                        samples: cycle.samples.push(spec_sample_of(c, v)),
                        recorded_prefixes: cycle.recorded_prefixes.push(telegram_prefix(c)),
                    }
                }
            },
        }
    }
}

/// The cycle state is well formed for a config list: one sample stands for
/// each recorded prefix, no prefix is recorded twice, and every recorded
/// prefix is one of the configured telegram prefixes. So a measurement
/// holds at most one sample per distinct prefix: a duplicate line is
/// dropped, not merged.
pub open spec fn cycle_wf(cycle: TelegramCycleData, configs: Seq<ConfigSampleData>) -> bool {
    &&& cycle.samples.len() == cycle.recorded_prefixes.len()
    &&& cycle.recorded_prefixes.no_duplicates()
    &&& forall|p: Seq<char>|
        cycle.recorded_prefixes.contains(p) ==> telegram_prefix_seq(configs).contains(p)
}

proof fn lemma_first_match_at(configs: Seq<ConfigSampleData>, line: Seq<u8>, k: int)
    requires
        0 <= k <= configs.len(),
        forall|j: int| 0 <= j < k ==> !telegram_matches(#[trigger] configs[j], line),
        k < configs.len() ==> telegram_matches(configs[k], line),
    ensures
        first_match(configs, line) == if k < configs.len() {
            k
        } else {
            -1
        },
    decreases k,
{
    if k > 0 {
        assert(forall|j: int|
            0 <= j < configs.drop_first().len() ==> configs.drop_first()[j] == configs[j + 1]);
        lemma_first_match_at(configs.drop_first(), line, k - 1);
    }
}

proof fn lemma_telegram_prefix_in_seq(configs: Seq<ConfigSampleData>, m: int)
    requires
        0 <= m < configs.len(),
        configs[m].locator is Telegram,
    ensures
        telegram_prefix_seq(configs).contains(telegram_prefix(configs[m])),
    decreases configs.len(),
{
    if m == configs.len() - 1 {
        let rest = telegram_prefix_seq(configs.drop_last());
        assert(telegram_prefix_seq(configs).last() == telegram_prefix(configs[m]));
    } else {
        lemma_telegram_prefix_in_seq(configs.drop_last(), m);
        let p = telegram_prefix(configs[m]);
        let rest = telegram_prefix_seq(configs.drop_last());
        let i = choose|i: int| 0 <= i < rest.len() && rest[i] == p;
        assert(telegram_prefix_seq(configs)[i] == p);
    }
}

/// Law: feeding a line never breaks well-formedness: prefixes stay
/// distinct, and stay drawn from the configured telegram prefixes. An
/// unrelated line — one that matches nothing, fails to decode, or repeats
/// an already recorded prefix — leaves the cycle state exactly as it was.
pub proof fn lemma_process_line_preserves_wf(
    cycle: TelegramCycleData,
    configs: Seq<ConfigSampleData>,
    line: Seq<u8>,
)
    requires
        cycle_wf(cycle, configs),
    ensures
        cycle_wf(spec_process_line(cycle, configs, line), configs),
{
    let after = spec_process_line(cycle, configs, line);
    let m = first_match(configs, line);
    if m >= 0 {
        lemma_first_match_props(configs, line);
        let c = configs[m];
        match spec_extracted_value(c, line) {
            Option::None => {},
            Option::Some(v) => {
                if !cycle.recorded_prefixes.contains(telegram_prefix(c)) {
                    lemma_telegram_prefix_in_seq(configs, m);
                    let rec = cycle.recorded_prefixes.push(telegram_prefix(c));
                    assert(rec.drop_last() =~= cycle.recorded_prefixes);
                    assert forall|p: Seq<char>| rec.contains(p) implies telegram_prefix_seq(
                        configs,
                    ).contains(p) by {
                        let i = choose|i: int| 0 <= i < rec.len() && rec[i] == p;
                        if i < rec.len() - 1 {
                            assert(cycle.recorded_prefixes.contains(p));
                        }
                    }
                }
            },
        }
    }
}

proof fn lemma_first_match_props(configs: Seq<ConfigSampleData>, line: Seq<u8>)
    ensures
        -1 <= first_match(configs, line) < configs.len(),
        first_match(configs, line) >= 0 ==> telegram_matches(
            configs[first_match(configs, line)],
            line,
        ),
    decreases configs.len(),
{
    if configs.len() > 0 && !telegram_matches(configs[0], line) {
        lemma_first_match_props(configs.drop_first(), line);
    }
}

/// Law: when the configured telegram prefixes are distinct, the cycle's
/// read loop stops exactly when every configured prefix has been recorded
/// once; until then it keeps reading, however many unrelated lines arrive.
pub proof fn lemma_cycle_completion(cycle: TelegramCycleData, configs: Seq<ConfigSampleData>)
    requires
        cycle_wf(cycle, configs),
        telegram_prefix_seq(configs).no_duplicates(),
    ensures
        (cycle.recorded_prefixes.len() >= telegram_prefix_seq(configs).len()) <==> (forall|j: int|
            0 <= j < telegram_prefix_seq(configs).len() ==> cycle.recorded_prefixes.contains(
                #[trigger] telegram_prefix_seq(configs)[j],
            )),
{
    broadcast use vstd::seq_lib::seq_to_set_is_finite;

    let rec = cycle.recorded_prefixes;
    let pre = telegram_prefix_seq(configs);
    rec.unique_seq_to_set();
    pre.unique_seq_to_set();
    assert(rec.to_set().subset_of(pre.to_set()));
    if rec.len() >= pre.len() {
        assert forall|j: int| 0 <= j < pre.len() implies rec.contains(#[trigger] pre[j]) by {
            if !rec.contains(pre[j]) {
                assert(pre.to_set().contains(pre[j]));
                rec.to_set().lemma_subset_not_in_lt(pre.to_set(), pre[j]);
            }
        }
    }
    if forall|j: int|
        0 <= j < pre.len() ==> cycle.recorded_prefixes.contains(#[trigger] pre[j]) {
        assert(pre.to_set().subset_of(rec.to_set())) by {
            assert forall|p: Seq<char>| pre.to_set().contains(p) implies rec.to_set().contains(
                p,
            ) by {
                let j = choose|j: int| 0 <= j < pre.len() && pre[j] == p;
                assert(rec.contains(pre[j]));
            }
        }
        vstd::set_lib::lemma_len_subset(pre.to_set(), rec.to_set());
    }
}

/// Compares the head of `line` against a prefix string, byte for byte.
fn line_has_prefix(line: &[u8], prefix: &str) -> (r: bool)
    ensures
        r == is_prefix_of(encode_utf8(prefix@), line@),
{
    let pb = prefix.as_bytes();
    let plen = pb.len();
    if plen > line.len() {
        return false;
    }
    let mut k: usize = 0;
    while k < plen
        invariant
            0 <= k <= plen,
            plen == pb@.len(),
            plen <= line@.len(),
            pb@ == prefix.spec_bytes(),
            forall|j: int| 0 <= j < k ==> line@[j] == pb@[j],
        decreases plen - k,
    {
        if line[k] != pb[k] {
            proof {
                assert(line@.take(plen as int)[k as int] != pb@[k as int]);
            }
            return false;
        }
        k += 1;
    }
    proof {
        assert(line@.take(plen as int) =~= pb@);
    }
    true
}

/// Whether `p` is one of the recorded prefixes.
fn contains_prefix(recorded: &Vec<String>, p: &str) -> (r: bool)
    ensures
        r == recorded@.map_values(|s: String| s@).contains(p@),
{
    let ghost views = recorded@.map_values(|s: String| s@);
    let n = recorded.len();
    let mut i: usize = 0;
    while i < n
        invariant
            0 <= i <= n,
            n == recorded@.len(),
            views == recorded@.map_values(|s: String| s@),
            forall|j: int| 0 <= j < i ==> views[j] != p@,
        decreases n - i,
    {
        if crate::text::str_eq(recorded[i].as_str(), p) {
            assert(views[i as int] == p@);
            return true;
        }
        i += 1;
    }
    proof {
        if views.contains(p@) {
            let j = choose|j: int| 0 <= j < views.len() && views[j] == p@;
        }
    }
    false
}

impl TelegramCycle {
    /// Starts a cycle with nothing recorded. The recorded set is
    /// cycle-local: it exists only for the duration of one poll.
    pub fn new() -> (r: TelegramCycle)
        ensures
            r@.samples == Seq::<SampleData>::empty(),
            r@.recorded_prefixes == Seq::<Seq<char>>::empty(),
    {
        let c = TelegramCycle { samples: Vec::new(), recorded_prefixes: Vec::new() };
        proof {
            assert(c@.samples =~= Seq::<SampleData>::empty());
            assert(c@.recorded_prefixes =~= Seq::<Seq<char>>::empty());
        }
        c
    }

    /// The number of distinct prefixes recorded so far this cycle.
    pub fn recorded_count(&self) -> (r: usize)
        ensures
            r == self@.recorded_prefixes.len(),
    {
        self.recorded_prefixes.len()
    }

    /// The samples recorded so far, in recording order.
    pub fn into_samples(self) -> (r: Vec<Sample>)
        ensures
            sample_views(r@) == self@.samples,
    {
        self.samples
    }

    /// Feeds one line of the telegram to the cycle.
    ///
    /// The configs are scanned in declared order and the first match wins.
    /// A line that matches no config, is too short for the configured
    /// field, holds a field that is no decimal literal, or repeats an
    /// already recorded prefix leaves the state unchanged; otherwise the
    /// decoded sample is appended and its prefix recorded.
    pub fn process_line(&mut self, config: &Config, line: &[u8])
        ensures
            final (self)@ == spec_process_line(old(self)@, config@.sample_configs, line@),
    {
        let ghost configs = config@.sample_configs;
        let n = config.sample_configs.len();
        let mut i: usize = 0;
        while i < n
            invariant
                0 <= i <= n,
                n == config.sample_configs@.len(),
                configs == config@.sample_configs,
                *self == *old(self),
                forall|j: int| 0 <= j < i ==> !telegram_matches(#[trigger] configs[j], line@),
            decreases n - i,
        {
            let sc = &config.sample_configs[i];
            proof {
                assert(sc@ == configs[i as int]);
            }
            match &sc.locator {
                SampleLocator::Telegram { prefix, value_start_index, value_length } => {
                    if line_has_prefix(line, prefix.as_str()) {
                        proof {
                            lemma_first_match_at(configs, line@, i as int);
                        }
                        let start = *value_start_index as usize;
                        let flen = *value_length as usize;
                        if line.len() < start + flen {
                            return ;
                        }
                        let field: &[u8] = &line[start..start + flen];
                        proof {
                            assert(field@ == line@.subrange(
                                start as int,
                                start as int + flen as int,
                            ));
                        }
                        let raw = match parse_decimal(field) {
                            Option::Some(v) => v,
                            Option::None => {
                                return ;
                            },
                        };
                        let value = match raw.checked_scale_mul(sc.value_multiplier) {
                            Option::Some(v) => v,
                            Option::None => {
                                return ;
                            },
                        };
                        if contains_prefix(&self.recorded_prefixes, prefix.as_str()) {
                            return ;
                        }
                        let sample = Sample {
                            entity_type: sc.entity_type,
                            entity_name: sc.entity_name.clone(),
                            sample_type: sc.sample_type,
                            sample_name: sc.sample_name.clone(),
                            metric_type: sc.metric_type,
                            value,
                        };
                        self.samples.push(sample);
                        self.recorded_prefixes.push(prefix.clone());
                        proof {
                            assert(self@.samples =~= old(self)@.samples.push(
                                spec_sample_of(configs[i as int], value@),
                            ));
                            assert(self@.recorded_prefixes
                                =~= old(self)@.recorded_prefixes.push(
                                telegram_prefix(configs[i as int]),
                            ));
                        }
                        return ;
                    }
                },
                SampleLocator::Register { .. } => {},
            }
            i += 1;
        }
        proof {
            lemma_first_match_at(configs, line@, n as int);
        }
    }

    /// Whether the cycle's read loop may stop: every configured telegram
    /// prefix has been recorded once. There is no time-based deadline: a
    /// configured prefix that never appears on the wire keeps the cycle
    /// open indefinitely.
    pub fn is_complete(&self, config: &Config) -> (r: bool)
        ensures
            r == (self@.recorded_prefixes.len() >= telegram_prefix_seq(
                config@.sample_configs,
            ).len()),
    {
        let ghost configs = config@.sample_configs;
        let n = config.sample_configs.len();
        let mut count: usize = 0;
        let mut i: usize = 0;
        while i < n
            invariant
                0 <= i <= n,
                n == config.sample_configs@.len(),
                configs == config@.sample_configs,
                count <= i,
                count == telegram_prefix_seq(configs.take(i as int)).len(),
            decreases n - i,
        {
            proof {
                assert(configs.take(i as int + 1).drop_last() =~= configs.take(i as int));
                assert(configs.take(i as int + 1).last() == configs[i as int]);
            }
            match &config.sample_configs[i].locator {
                SampleLocator::Telegram { .. } => {
                    count = count + 1;
                },
                SampleLocator::Register { .. } => {},
            }
            i += 1;
        }
        proof {
            assert(configs.take(n as int) =~= configs);
        }
        self.recorded_prefixes.len() >= count
    }
}

/// One cycle's state after feeding the given lines in order: each line is
/// ignored once the cycle is complete, and fed to the cycle otherwise.
pub open spec fn spec_collect(
    configs: Seq<ConfigSampleData>,
    lines: Seq<Seq<u8>>,
) -> TelegramCycleData
    decreases lines.len(),
{
    if lines.len() == 0 {
        TelegramCycleData { samples: Seq::empty(), recorded_prefixes: Seq::empty() }
    } else {
        let prev = spec_collect(configs, lines.drop_last());
        if prev.recorded_prefixes.len() >= telegram_prefix_seq(configs).len() {
            prev
        } else {
            spec_process_line(prev, configs, lines.last())
        }
    }
}

/// Law: every cycle state reachable from a fresh cycle is well formed, so
/// the completion law applies to any real run.
pub proof fn lemma_collect_wf(configs: Seq<ConfigSampleData>, lines: Seq<Seq<u8>>)
    ensures
        cycle_wf(spec_collect(configs, lines), configs),
    decreases lines.len(),
{
    if lines.len() == 0 {
        assert(spec_collect(configs, lines).recorded_prefixes =~= Seq::<Seq<char>>::empty());
    } else {
        lemma_collect_wf(configs, lines.drop_last());
        lemma_process_line_preserves_wf(
            spec_collect(configs, lines.drop_last()),
            configs,
            lines.last(),
        );
    }
}

/// Runs one telegram cycle over the given lines, in order, as the read
/// loop would: lines arriving after the cycle is complete are not
/// consumed.
pub fn collect_from_lines(config: &Config, lines: &Vec<Vec<u8>>) -> (r: TelegramCycle)
    ensures
        r@ == spec_collect(config@.sample_configs, lines@.map_values(|l: Vec<u8>| l@)),
{
    let ghost configs = config@.sample_configs;
    let ghost line_views = lines@.map_values(|l: Vec<u8>| l@);
    let mut cycle = TelegramCycle::new();
    let n = lines.len();
    let mut i: usize = 0;
    proof {
        assert(cycle@ == spec_collect(configs, line_views.take(0)));
    }
    while i < n
        invariant
            0 <= i <= n,
            n == lines@.len(),
            configs == config@.sample_configs,
            line_views == lines@.map_values(|l: Vec<u8>| l@),
            cycle@ == spec_collect(configs, line_views.take(i as int)),
        decreases n - i,
    {
        proof {
            assert(line_views.take(i as int + 1).drop_last() =~= line_views.take(i as int));
            assert(line_views.take(i as int + 1).last() == lines@[i as int]@);
        }
        if !cycle.is_complete(config) {
            cycle.process_line(config, lines[i].as_slice());
        }
        i += 1;
    }
    proof {
        assert(line_views.take(n as int) =~= line_views);
    }
    cycle
}

/// The fixed source tag of the telegram path.
pub fn p1_source_tag() -> (r: &'static str)
    ensures
        r@ == "jarvis-p1-exporter"@,
{
    "jarvis-p1-exporter"
}

/// The serial connection parameters of the telegram reader.
pub struct P1ClientConfig {
    usb_device_path: String,
}

impl View for P1ClientConfig {
    type V = Seq<char>;

    closed spec fn view(&self) -> Seq<char> {
        self.usb_device_path@
    }
}

impl P1ClientConfig {
    /// Wraps the path of the serial device the telegram is read from.
    pub fn new(usb_device_path: String) -> (r: Result<Self, AcquireError>)
        ensures
            r matches Ok(c) && c@ == usb_device_path@,
    {
        Ok(Self { usb_device_path })
    }

    /// The path of the serial device.
    pub fn usb_device_path(&self) -> (r: &str)
        ensures
            r@ == self@,
    {
        self.usb_device_path.as_str()
    }
}

/// The telegram reader: decodes the serial line protocol into one
/// measurement per poll cycle.
pub struct P1Client {
    config: P1ClientConfig,
}

impl View for P1Client {
    type V = Seq<char>;

    closed spec fn view(&self) -> Seq<char> {
        self.config@
    }
}

impl P1Client {
    pub fn new(config: P1ClientConfig) -> (r: Self)
        ensures
            r@ == config@,
    {
        Self { config }
    }

    /// The path of the serial device this client reads.
    pub fn usb_device_path(&self) -> (r: &str)
        ensures
            r@ == self@,
    {
        self.config.usb_device_path()
    }

    /// Wraps one completed cycle's samples into a measurement list, as the
    /// telegram path returns it: a fresh identifier, the path's fixed
    /// source tag, the configured location and a capture timestamp, with
    /// the counter filter applied against the last of the previous
    /// measurements when there is one.
    pub fn assemble_measurements(
        &self,
        config: &Config,
        samples: Vec<Sample>,
        last_measurements: Option<Vec<Measurement>>,
    ) -> (r: Vec<Measurement>)
        ensures
            r@.len() == 1,
            r@[0]@.id.len() == 36,
            r@[0]@.source == "jarvis-p1-exporter"@,
            r@[0]@.location == config@.location,
            r@[0]@.samples == match last_measurements {
                Option::Some(lm) => if lm@.len() > 0 {
                    sanitize_seq(sample_views(samples@), lm@.last()@.samples)
                } else {
                    sample_views(samples@)
                },
                Option::None => sample_views(samples@),
            },
    {
        let final_samples = match &last_measurements {
            Option::Some(lm) => {
                if lm.len() > 0 {
                    sanitize_samples(samples, &lm[lm.len() - 1].samples)
                } else {
                    samples
                }
            },
            Option::None => samples,
        };
        let measurement = Measurement {
            id: new_time_ordered_id(),
            source: p1_source_tag().to_owned(),
            location: config.location.clone(),
            samples: final_samples,
            measured_at_micros: current_unix_micros(),
        };
        let mut result: Vec<Measurement> = Vec::new();
        result.push(measurement);
        result
    }
}

} // verus!
