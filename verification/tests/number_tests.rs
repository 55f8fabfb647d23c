use sim_core::number::{split_device_number, split_frequency, split_model_number, Scale};

fn device(token: &str) -> (String, Scale) {
    let s = split_device_number(token);
    (s.digits, s.scale)
}

fn model(token: &str) -> (String, Scale) {
    let s = split_model_number(token);
    (s.digits, s.scale)
}

fn frequency(token: &str) -> (String, Scale) {
    let s = split_frequency(token);
    (s.digits, s.scale)
}

#[test]
fn every_suffix_of_a_device_value() {
    assert_eq!(device("1f"), ("1".to_string(), Scale::Femto));
    assert_eq!(device("1p"), ("1".to_string(), Scale::Pico));
    assert_eq!(device("1n"), ("1".to_string(), Scale::Nano));
    assert_eq!(device("1u"), ("1".to_string(), Scale::Micro));
    assert_eq!(device("1m"), ("1".to_string(), Scale::Milli));
    assert_eq!(device("1"), ("1".to_string(), Scale::One));
    assert_eq!(device("1k"), ("1".to_string(), Scale::Kilo));
    assert_eq!(device("1meg"), ("1".to_string(), Scale::Mega));
    assert_eq!(device("1g"), ("1".to_string(), Scale::Giga));
    assert_eq!(device("1t"), ("1".to_string(), Scale::Tera));
}

#[test]
fn case_and_white_space_make_no_difference() {
    assert_eq!(device("  2.5MEG\t"), ("2.5".to_string(), Scale::Mega));
    assert_eq!(device("10K"), ("10".to_string(), Scale::Kilo));
    assert_eq!(device("1E3"), ("1e3".to_string(), Scale::One));
}

#[test]
fn tokens_without_a_numeral() {
    assert_eq!(device(""), ("".to_string(), Scale::One));
    assert_eq!(device("k"), ("".to_string(), Scale::Kilo));
    assert_eq!(device("meg"), ("".to_string(), Scale::Mega));
    assert_eq!(device("DC"), ("dc".to_string(), Scale::One));
    assert_eq!(device("eg"), ("e".to_string(), Scale::Giga));
    assert_eq!(device("1mil"), ("1mil".to_string(), Scale::One));
    assert_eq!(device("1\u{3a9}"), ("1\u{3a9}".to_string(), Scale::One));
}

#[test]
fn model_parameters_know_mil() {
    assert_eq!(model("2n"), ("2".to_string(), Scale::Nano));
    assert_eq!(model("3mil"), ("3".to_string(), Scale::Mil));
    assert_eq!(model("3Meg"), ("3".to_string(), Scale::Mega));
    assert_eq!(model("0.5"), ("0.5".to_string(), Scale::One));
}

#[test]
fn frequencies_read_m_as_mega() {
    assert_eq!(frequency("1meg"), ("1".to_string(), Scale::Mega));
    assert_eq!(frequency("1m"), ("1".to_string(), Scale::Mega));
    assert_eq!(frequency("100k"), ("100".to_string(), Scale::Kilo));
    assert_eq!(frequency("2G"), ("2".to_string(), Scale::Giga));
    assert_eq!(frequency("50"), ("50".to_string(), Scale::One));
    assert_eq!(frequency("1u"), ("1u".to_string(), Scale::One));
}

#[test]
fn frequencies_in_hertz() {
    assert_eq!(frequency("50hz"), ("50".to_string(), Scale::One));
    assert_eq!(frequency("100kHz"), ("100".to_string(), Scale::Kilo));
    assert_eq!(frequency("1mhz"), ("1".to_string(), Scale::Milli));
    assert_eq!(frequency("2ghz"), ("2".to_string(), Scale::Giga));
    assert_eq!(frequency("hz"), ("".to_string(), Scale::One));
}

fn factor(scale: Scale) -> f64 {
    match scale {
        Scale::Femto => 1e-15,
        Scale::Pico => 1e-12,
        Scale::Nano => 1e-9,
        Scale::Micro => 1e-6,
        Scale::Milli => 1e-3,
        Scale::One => 1.0,
        Scale::Kilo => 1e3,
        Scale::Mega => 1e6,
        Scale::Giga => 1e9,
        Scale::Tera => 1e12,
        Scale::Mil => 25.4e-6,
    }
}

fn parse_number(token: &str) -> Option<f64> {
    let split = split_model_number(token);
    split.digits.parse::<f64>().ok().map(|n| n * factor(split.scale))
}

#[test]
fn test_parse_number_suffixes() {
    assert!((parse_number("1.5").unwrap() - 1.5).abs() < 1e-10);
    assert!((parse_number("1n").unwrap() - 1e-9).abs() < 1e-15);
    assert!((parse_number("1u").unwrap() - 1e-6).abs() < 1e-12);
    assert!((parse_number("10k").unwrap() - 1e4).abs() < 1e-6);
    assert!((parse_number("2.5meg").unwrap() - 2.5e6).abs() < 1.0);
}

#[test]
fn written_scales_are_read_back() {
    let suffixes = [
        ("f", 1e-15),
        ("p", 1e-12),
        ("n", 1e-9),
        ("u", 1e-6),
        ("m", 1e-3),
        ("", 1.0),
        ("k", 1e3),
        ("meg", 1e6),
        ("g", 1e9),
        ("t", 1e12),
    ];
    for (suffix, value) in suffixes {
        for numeral in ["1", "2.50", "-3", "+0.125", "10"] {
            let token = format!("{}{}", numeral, suffix);
            let split = split_device_number(&token);
            assert_eq!(split.digits, numeral);
            assert_eq!(factor(split.scale), value);
            let again = split_model_number(&token);
            assert_eq!((again.digits, again.scale), (split.digits, split.scale));
        }
    }
}
