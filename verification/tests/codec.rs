use program_scanner::Channel;
use program_scanner::Modulation;
use program_scanner::ParseError;
use program_scanner::parse_bool;
use program_scanner::parse_usize;
use program_scanner::uniden::ubc125xlt::parse_channel;
use program_scanner::uniden::ubc125xlt::serialize_channel;

fn sample_channel() -> Channel {
    Channel {
        id: 0,
        tag: "POLICE".to_string(),
        frequency: 146_200_000,
        modulation: Modulation::FrequencyModulation,
        delay: 2,
        locked: true,
        priority: false,
    }
}

#[test]
fn serialize_exact_layout() {
    let s = serialize_channel(&sample_channel());
    assert_eq!(s, "POLICE          ,01462000,FM,0,2,1,0");
}

#[test]
fn serialize_then_parse_reproduces_channel() {
    let c = sample_channel();
    let record = format!("7,{}", serialize_channel(&c));
    let parsed = parse_channel(&record).unwrap();
    assert_eq!(parsed.tag, c.tag);
    assert_eq!(parsed.frequency, c.frequency);
    assert_eq!(parsed.modulation, c.modulation);
    assert_eq!(parsed.delay, c.delay);
    assert_eq!(parsed.locked, c.locked);
    assert_eq!(parsed.priority, c.priority);
    assert_eq!(parsed.id, 0);
}

#[test]
fn serialize_truncates_long_tag() {
    let mut c = sample_channel();
    c.tag = "LONGTAGNAMEEXCEEDING".to_string();
    c.frequency = 146_200;
    c.modulation = Modulation::AmplitudeModulation;
    c.delay = 0;
    c.locked = false;
    c.priority = true;
    let s = serialize_channel(&c);
    assert_eq!(s, "LONGTAGNAMEEXCEE,00001462,AM,0,0,0,1");
}

#[test]
fn serialize_truncates_sub_100_hz() {
    let mut c = sample_channel();
    c.frequency = 146_250;
    let s = serialize_channel(&c);
    assert_eq!(s, "POLICE          ,00001462,FM,0,2,1,0");
}

#[test]
fn parse_assigns_no_id() {
    let parsed = parse_channel("25,TESTTAG         ,00014620,FM,0,2,1,0").unwrap();
    assert_eq!(parsed.id, 0);
    assert_eq!(parsed.tag, "TESTTAG");
    assert_eq!(parsed.frequency, 1_462_000);
}

#[test]
fn parse_bad_frequency_is_frequency_error() {
    let r = parse_channel("5,TESTTAG         ,14.62MHz,FM,0,2,1,0");
    assert_eq!(r.unwrap_err(), ParseError::Frequency);
}

#[test]
fn parse_bad_modulation_is_modulation_error() {
    let r = parse_channel("5,TESTTAG         ,00014620,WFM,0,2,1,0");
    assert_eq!(r.unwrap_err(), ParseError::Modulation);
}

#[test]
fn parse_bad_delay_is_delay_error() {
    let r = parse_channel("5,TESTTAG         ,00014620,FM,0,two,1,0");
    assert_eq!(r.unwrap_err(), ParseError::Delay);
}

#[test]
fn parse_bad_locked_is_locked_error() {
    let r = parse_channel("5,TESTTAG         ,00014620,FM,0,2,no,0");
    assert_eq!(r.unwrap_err(), ParseError::Locked);
}

#[test]
fn parse_bad_priority_is_priority_error() {
    let r = parse_channel("5,TESTTAG         ,00014620,FM,0,2,1,");
    assert_eq!(r.unwrap_err(), ParseError::Priority);
}

#[test]
fn parse_nonzero_locked_is_true() {
    let parsed = parse_channel("5,TESTTAG         ,00014620,FM,0,2,5,0").unwrap();
    assert!(parsed.locked);
    assert!(!parsed.priority);
}

#[test]
fn parse_strict_booleans_round_trip() {
    let parsed = parse_channel("5,TESTTAG         ,00014620,FM,0,2,1,0").unwrap();
    assert!(parsed.locked);
    assert!(!parsed.priority);
    let parsed = parse_channel("5,TESTTAG         ,00014620,FM,0,2,0,1").unwrap();
    assert!(!parsed.locked);
    assert!(parsed.priority);
}

#[test]
fn parse_short_record_reports_first_missing_field() {
    assert_eq!(parse_channel("").unwrap_err(), ParseError::Frequency);
    assert_eq!(parse_channel("5,TAG,00014620").unwrap_err(), ParseError::Modulation);
}

#[test]
fn parse_usize_reads_padded_decimals() {
    assert_eq!(parse_usize("00014620"), Some(14620));
    assert_eq!(parse_usize("0"), Some(0));
    assert_eq!(parse_usize(""), None);
    assert_eq!(parse_usize("12a"), None);
    assert_eq!(parse_usize("-4"), None);
    assert_eq!(parse_usize("99999999999999999999999999"), None);
}

#[test]
fn parse_bool_is_nonzero() {
    assert_eq!(parse_bool("0"), Some(false));
    assert_eq!(parse_bool("1"), Some(true));
    assert_eq!(parse_bool("5"), Some(true));
    assert_eq!(parse_bool("007"), Some(true));
    assert_eq!(parse_bool(""), None);
    assert_eq!(parse_bool("x"), None);
}

#[test]
fn modulation_tokens() {
    assert_eq!(Modulation::from_str("AM").unwrap(), Modulation::AmplitudeModulation);
    assert_eq!(Modulation::from_str("FM").unwrap(), Modulation::FrequencyModulation);
    assert_eq!(Modulation::from_str("fm").unwrap_err(), ParseError::Modulation);
    assert_eq!(Modulation::AmplitudeModulation.wire_token(), "AM");
    assert_eq!(Modulation::FrequencyModulation.wire_token(), "FM");
}

#[test]
fn parse_error_messages_name_the_field() {
    assert_eq!(ParseError::Frequency.message(), "Could not parse the frequency");
    assert_eq!(ParseError::Modulation.message(), "Could not parse the modulation");
    assert_eq!(ParseError::Delay.message(), "Could not parse the delay");
    assert_eq!(ParseError::Locked.message(), "Could not parse the locked state");
    assert_eq!(ParseError::Priority.message(), "Could not parse the priority");
}
