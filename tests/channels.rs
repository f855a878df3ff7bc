use daq_config::limits::{fits_parser_limits, MAX_FLOW_OPENERS, MAX_LINE_CHARS};
use daq_config::parser::{parse, Field, ParseError};
use daq_config::rust_increment;
use daq_config::store::{
    get_configuration_count, get_hardware_channels, get_max_voltage, get_min_voltage,
    get_sample_rate_hz, load_daq_configurations, unload_daq_configurations, AccessError,
    DaqConfigurations, Handle, LoadError,
};

const THREE_CHANNELS: &str = "\
cDAQ_configurations:
  - min_voltage: -5
    max_voltage: 5
    sample_rate_Hz: 500
    hardware_channels: cDAQ1Mod1/ai0:7
  - min_voltage: -10
    max_voltage: 10
    sample_rate_Hz: 1000
    hardware_channels: cDAQ1Mod2/ai0:15
  - min_voltage: -1
    max_voltage: 1
    sample_rate_Hz: 2000
    hardware_channels: cDAQ1Mod3/ai0:15
";

fn load_config_test_setup() -> Handle {
    load_daq_configurations(Some(THREE_CHANNELS)).unwrap()
}

fn load_error(text: Option<&str>) -> LoadError {
    match load_daq_configurations(text) {
        Ok(_) => panic!("the load was expected to fail"),
        Err(e) => e,
    }
}

#[test]
fn increment_integer() {
    let input_integer: u32 = 1003;
    let incremented = rust_increment(input_integer);
    assert_eq!(incremented, 1004);
}

#[test]
fn c_load_unload_no_panic() {
    let mut daq_configs = load_config_test_setup();
    unload_daq_configurations(&mut daq_configs);
}

#[test]
fn c_three_configurations_load() {
    let mut daq_configs = load_config_test_setup();
    let count = get_configuration_count(&daq_configs);
    assert_eq!(count, Ok(3));
    unload_daq_configurations(&mut daq_configs);
}

#[test]
fn c_get_min_voltage() {
    let mut daq_configs = load_config_test_setup();
    let min = get_min_voltage(&daq_configs, 0);
    assert_eq!(min, Ok(-5));
    unload_daq_configurations(&mut daq_configs);
}

#[test]
fn c_get_max_voltage() {
    let mut daq_configs = load_config_test_setup();
    let max = get_max_voltage(&daq_configs, 2);
    assert_eq!(max, Ok(1));
    unload_daq_configurations(&mut daq_configs);
}

#[test]
fn c_get_sample_rate() {
    let mut daq_configs = load_config_test_setup();
    let rate = get_sample_rate_hz(&daq_configs, 1);
    assert_eq!(rate, Ok(1000));
    unload_daq_configurations(&mut daq_configs);
}

#[test]
fn c_get_hardware() {
    let mut daq_configs = load_config_test_setup();
    let hardware_channels = get_hardware_channels(&daq_configs, 2).unwrap();
    assert_eq!(hardware_channels, "cDAQ1Mod3/ai0:15");
    unload_daq_configurations(&mut daq_configs);
}

#[test]
fn every_field_read_in_document_order() {
    let h = load_config_test_setup();
    let mins = [-5, -10, -1];
    let maxs = [5, 10, 1];
    let rates = [500, 1000, 2000];
    let hws = ["cDAQ1Mod1/ai0:7", "cDAQ1Mod2/ai0:15", "cDAQ1Mod3/ai0:15"];
    for i in 0..3 {
        assert_eq!(get_min_voltage(&h, i as i64), Ok(mins[i]));
        assert_eq!(get_max_voltage(&h, i as i64), Ok(maxs[i]));
        assert_eq!(get_sample_rate_hz(&h, i as i64), Ok(rates[i]));
        assert_eq!(get_hardware_channels(&h, i as i64).unwrap(), hws[i]);
    }
}

#[test]
fn reordered_document_reads_reordered() {
    let text = "\
cDAQ_configurations:
  - {min_voltage: -1, max_voltage: 1, sample_rate_Hz: 2000, hardware_channels: b}
  - {min_voltage: -5, max_voltage: 5, sample_rate_Hz: 500, hardware_channels: a}
";
    let h = load_daq_configurations(Some(text)).unwrap();
    assert_eq!(get_min_voltage(&h, 0), Ok(-1));
    assert_eq!(get_min_voltage(&h, 1), Ok(-5));
    assert_eq!(get_hardware_channels(&h, 0).unwrap(), "b");
    assert_eq!(get_hardware_channels(&h, 1).unwrap(), "a");
}

#[test]
fn empty_channel_list_counts_zero() {
    let h = load_daq_configurations(Some("cDAQ_configurations: []\n")).unwrap();
    assert_eq!(get_configuration_count(&h), Ok(0));
    assert_eq!(get_min_voltage(&h, 0), Err(AccessError::Index));
}

#[test]
fn index_out_of_range_is_index_error() {
    let h = load_config_test_setup();
    assert_eq!(get_min_voltage(&h, 3), Err(AccessError::Index));
    assert_eq!(get_max_voltage(&h, -1), Err(AccessError::Index));
    assert_eq!(get_sample_rate_hz(&h, i64::MAX), Err(AccessError::Index));
    assert_eq!(get_hardware_channels(&h, i64::MIN), Err(AccessError::Index));
}

#[test]
fn accessors_after_unload_report_invalid_handle() {
    let mut h = load_config_test_setup();
    unload_daq_configurations(&mut h);
    assert_eq!(get_configuration_count(&h), Err(AccessError::InvalidHandle));
    assert_eq!(get_min_voltage(&h, 0), Err(AccessError::InvalidHandle));
    assert_eq!(get_max_voltage(&h, 0), Err(AccessError::InvalidHandle));
    assert_eq!(get_sample_rate_hz(&h, 1), Err(AccessError::InvalidHandle));
    assert_eq!(get_hardware_channels(&h, 2), Err(AccessError::InvalidHandle));
    assert_eq!(get_min_voltage(&h, -1), Err(AccessError::InvalidHandle));
}

#[test]
fn unload_of_sentinel_is_no_op() {
    let mut h = Handle::sentinel();
    unload_daq_configurations(&mut h);
    unload_daq_configurations(&mut h);
    assert_eq!(get_configuration_count(&h), Err(AccessError::InvalidHandle));
}

#[test]
fn repeated_loads_read_alike() {
    for _ in 0..2 {
        let mut a = load_config_test_setup();
        let mut b = load_config_test_setup();
        assert_eq!(get_configuration_count(&a), get_configuration_count(&b));
        for i in -1..4 {
            assert_eq!(get_min_voltage(&a, i), get_min_voltage(&b, i));
            assert_eq!(get_max_voltage(&a, i), get_max_voltage(&b, i));
            assert_eq!(get_sample_rate_hz(&a, i), get_sample_rate_hz(&b, i));
            assert_eq!(get_hardware_channels(&a, i), get_hardware_channels(&b, i));
        }
        unload_daq_configurations(&mut a);
        unload_daq_configurations(&mut b);
    }
}

#[test]
fn unreadable_document_is_io_error() {
    assert_eq!(load_error(None), LoadError::Io);
}

#[test]
fn malformed_yaml_is_syntax_error() {
    assert_eq!(load_error(Some("cDAQ_configurations: [1, 2\n")), LoadError::Parse(ParseError::Syntax));
    assert_eq!(parse("a: [b").unwrap_err(), ParseError::Syntax);
}

#[test]
fn missing_channel_list() {
    assert_eq!(load_error(Some("other_key: []\n")), LoadError::Parse(ParseError::MissingChannelList));
    assert_eq!(load_error(Some("")), LoadError::Parse(ParseError::MissingChannelList));
    assert_eq!(load_error(Some("- 1\n- 2\n")), LoadError::Parse(ParseError::MissingChannelList));
}

#[test]
fn channel_list_not_sequence() {
    assert_eq!(
        load_error(Some("cDAQ_configurations: 7\n")),
        LoadError::Parse(ParseError::ChannelListNotSequence)
    );
}

#[test]
fn missing_field_names_entry_and_field() {
    let text = "\
cDAQ_configurations:
  - {min_voltage: -5, max_voltage: 5, sample_rate_Hz: 500, hardware_channels: a}
  - {min_voltage: -5, sample_rate_Hz: 500, hardware_channels: a}
";
    assert_eq!(
        load_error(Some(text)),
        LoadError::Parse(ParseError::MissingField { entry: 1, field: Field::MaxVoltage })
    );
    let not_mapping = "cDAQ_configurations:\n  - 3\n";
    assert_eq!(
        load_error(Some(not_mapping)),
        LoadError::Parse(ParseError::MissingField { entry: 0, field: Field::MinVoltage })
    );
}

#[test]
fn wrong_field_kind_names_entry_and_field() {
    let text = "\
cDAQ_configurations:
  - {min_voltage: -5, max_voltage: 5, sample_rate_Hz: fast, hardware_channels: a}
";
    assert_eq!(
        load_error(Some(text)),
        LoadError::Parse(ParseError::WrongFieldKind { entry: 0, field: Field::SampleRateHz })
    );
    let quoted_number = "\
cDAQ_configurations:
  - {min_voltage: '-5', max_voltage: 5, sample_rate_Hz: 1, hardware_channels: a}
";
    assert_eq!(
        load_error(Some(quoted_number)),
        LoadError::Parse(ParseError::WrongFieldKind { entry: 0, field: Field::MinVoltage })
    );
    let numeric_channels = "\
cDAQ_configurations:
  - {min_voltage: -5, max_voltage: 5, sample_rate_Hz: 1, hardware_channels: 12}
";
    assert_eq!(
        load_error(Some(numeric_channels)),
        LoadError::Parse(ParseError::WrongFieldKind { entry: 0, field: Field::HardwareChannels })
    );
}

#[test]
fn parse_reads_the_yaml_text() {
    let configs = parse(THREE_CHANNELS).unwrap();
    assert_eq!(configs.len(), 3);
    assert_eq!(configs[1].min_voltage, -10);
    assert_eq!(configs[1].max_voltage, 10);
    assert_eq!(configs[1].sample_rate_hz, 1000);
    assert_eq!(configs[1].hardware_channels, "cDAQ1Mod2/ai0:15");
}

#[test]
fn store_methods_read_by_index() {
    let mut store = DaqConfigurations::new();
    assert_eq!(store.get_count(), 0);
    assert_eq!(store.load_configuration(THREE_CHANNELS), Ok(()));
    assert_eq!(store.get_count(), 3);
    assert_eq!(store.get_min(0), Ok(-5));
    assert_eq!(store.get_max(1), Ok(10));
    assert_eq!(store.get_rate(2), Ok(2000));
    assert_eq!(store.get_hw(0).unwrap(), "cDAQ1Mod1/ai0:7");
    assert_eq!(store.get_hw(3), Err(AccessError::Index));
    assert_eq!(store.load_configuration("nothing: here\n"), Err(ParseError::MissingChannelList));
    assert_eq!(store.get_count(), 3);
}

#[test]
fn example_document_is_within_limits() {
    assert!(fits_parser_limits(THREE_CHANNELS));
    assert!(fits_parser_limits(""));
}

#[test]
fn long_line_exceeds_limits() {
    let mut text = String::from("cDAQ_configurations: ");
    while text.chars().count() <= MAX_LINE_CHARS {
        text.push('x');
    }
    assert!(!fits_parser_limits(&text));
    assert_eq!(load_error(Some(&text)), LoadError::Parse(ParseError::LimitExceeded));
    let fits = "y".repeat(MAX_LINE_CHARS);
    assert!(fits_parser_limits(&format!("{}\n{}\n", fits, fits)));
}

#[test]
fn flow_openers_beyond_limit_exceed_limits() {
    let at_limit = format!("{}\n{}\n", "[".repeat(MAX_FLOW_OPENERS), "]".repeat(MAX_FLOW_OPENERS));
    assert!(fits_parser_limits(&at_limit));
    assert_eq!(parse(&at_limit).unwrap_err(), ParseError::MissingChannelList);
    let beyond = format!("{}{{\n{}}}\n", "[".repeat(MAX_FLOW_OPENERS), "]".repeat(MAX_FLOW_OPENERS));
    assert!(!fits_parser_limits(&beyond));
    assert_eq!(parse(&beyond).unwrap_err(), ParseError::LimitExceeded);
}

#[test]
fn anchor_with_alias_exceeds_limits() {
    let text = "\
base: &b {min_voltage: -5, max_voltage: 5, sample_rate_Hz: 500, hardware_channels: a}
cDAQ_configurations:
  - *b
";
    assert_eq!(load_error(Some(text)), LoadError::Parse(ParseError::LimitExceeded));
    let anchor_only = "\
cDAQ_configurations:
  - &b {min_voltage: -5, max_voltage: 5, sample_rate_Hz: 500, hardware_channels: a1}
";
    let h = load_daq_configurations(Some(anchor_only)).unwrap();
    assert_eq!(get_hardware_channels(&h, 0).unwrap(), "a1");
    let star_only = "\
cDAQ_configurations:
  - {min_voltage: -5, max_voltage: 5, sample_rate_Hz: 500, hardware_channels: 'a*'}
";
    let h = load_daq_configurations(Some(star_only)).unwrap();
    assert_eq!(get_hardware_channels(&h, 0).unwrap(), "a*");
}

#[test]
fn deepest_block_nesting_within_limits_parses() {
    let mut text = String::new();
    for k in 0..MAX_LINE_CHARS - 1 {
        text.push_str(&" ".repeat(k));
        text.push_str("-\n");
    }
    text.push_str(&" ".repeat(MAX_LINE_CHARS - 1));
    text.push_str("1\n");
    assert!(fits_parser_limits(&text));
    assert_eq!(parse(&text).unwrap_err(), ParseError::MissingChannelList);
    let mut keys = String::new();
    for k in 0..MAX_LINE_CHARS - 2 {
        keys.push_str(&" ".repeat(k));
        keys.push_str("k:\n");
    }
    assert!(fits_parser_limits(&keys));
    assert_eq!(parse(&keys).unwrap_err(), ParseError::MissingChannelList);
    let compact = format!("{}1\n", "- ".repeat(MAX_LINE_CHARS / 2 - 1));
    assert!(fits_parser_limits(&compact));
    assert_eq!(parse(&compact).unwrap_err(), ParseError::MissingChannelList);
}
