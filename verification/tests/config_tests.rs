use rsc::config::{Config, ConfigError, ConfigSource, PartialConfig};

fn config(cutoff: u8, resume: u8) -> Config {
    Config { cutoff, resume, ..Config::default() }
}

fn is_valid_range(cutoff: u8, resume: u8) -> bool {
    config(cutoff, resume).validate().is_ok()
}

fn partial() -> PartialConfig {
    PartialConfig {
        cutoff: None,
        resume: None,
        debug: None,
        log_file: None,
        log_max_size_kb: None,
        log_keep: None,
    }
}

fn parse_toml_cutoff_resume(content: &str) -> (Option<u8>, Option<u8>) {
    let table: toml::Table = content.parse().unwrap();
    let number = |key: &str| table.get(key).and_then(|v| v.as_integer()).map(|n| n as u8);
    (number("cutoff"), number("resume"))
}

#[test]
fn test_default_config_is_valid() {
    let (cutoff, resume) = (80u8, 70u8);
    assert!(is_valid_range(cutoff, resume));
    assert_eq!(Config::default().cutoff, cutoff);
    assert_eq!(Config::default().resume, resume);
    assert!(Config::default().validate().is_ok());
}

#[test]
fn test_invalid_range_rejected() {
    assert!(!is_valid_range(70, 80), "cutoff < resume must be rejected");
    assert!(!is_valid_range(80, 80), "cutoff == resume must be rejected");
    assert!(!is_valid_range(101, 70), "cutoff > 100 must be rejected");
}

#[test]
fn test_valid_ranges_accepted() {
    assert!(is_valid_range(85, 75));
    assert!(is_valid_range(80, 70));
    assert!(is_valid_range(95, 50));
}

#[test]
fn test_user_supplied_default_layout_round_trips() {
    let (cutoff, resume) = parse_toml_cutoff_resume("cutoff = 85\nresume = 75\n");
    assert_eq!(cutoff, Some(85));
    assert_eq!(resume, Some(75));
    let cfg = Config::load(ConfigSource::Parsed(PartialConfig { cutoff, resume, ..partial() }));
    let cfg = cfg.unwrap();
    assert_eq!(cfg.cutoff, 85);
    assert_eq!(cfg.resume, 75);
}

#[test]
fn bounds_of_the_range() {
    assert!(is_valid_range(100, 0));
    assert!(is_valid_range(100, 99));
    assert!(is_valid_range(1, 0));
    assert!(!is_valid_range(0, 0));
    assert!(!is_valid_range(255, 254));
}

#[test]
fn complaints_of_the_range_check() {
    match config(70, 80).validate() {
        Err(ConfigError::InvalidRange(s)) => {
            assert_eq!(s, "cutoff (70) must be strictly greater than resume (80)")
        }
        other => panic!("{:?}", other),
    }
    match config(120, 110).validate() {
        Err(ConfigError::InvalidRange(s)) => assert_eq!(s, "cutoff and resume must be in 0..=100"),
        other => panic!("{:?}", other),
    }
    // The order is looked at first.
    match config(110, 120).validate() {
        Err(ConfigError::InvalidRange(s)) => {
            assert_eq!(s, "cutoff (110) must be strictly greater than resume (120)")
        }
        other => panic!("{:?}", other),
    }
}

#[test]
fn errors_in_words() {
    assert_eq!(ConfigError::Io("denied".to_string()).to_string(), "io: denied");
    assert_eq!(ConfigError::Parse("bad".to_string()).to_string(), "parse: bad");
    assert_eq!(ConfigError::InvalidRange("x".to_string()).to_string(), "range: x");
}

#[test]
fn missing_file_gives_the_defaults() {
    let cfg = Config::load(ConfigSource::Missing).unwrap();
    assert_eq!(cfg.cutoff, 80);
    assert_eq!(cfg.resume, 70);
    assert!(!cfg.debug);
    assert_eq!(cfg.log_file, "/data/adb/rsc/rsc.log");
    assert_eq!(cfg.log_max_size_kb, 512);
    assert_eq!(cfg.log_keep, 3);
}

#[test]
fn empty_file_is_the_default() {
    let cfg = Config::load(ConfigSource::Parsed(partial())).unwrap();
    assert_eq!(format!("{:?}", cfg), format!("{:?}", Config::default()));
}

#[test]
fn partial_files_override_what_they_name() {
    let cfg = Config::load(ConfigSource::Parsed(PartialConfig {
        debug: Some(true),
        log_file: Some("/tmp/x.log".to_string()),
        log_keep: Some(9),
        ..partial()
    }))
    .unwrap();
    assert_eq!(cfg.cutoff, 80);
    assert_eq!(cfg.resume, 70);
    assert!(cfg.debug);
    assert_eq!(cfg.log_file, "/tmp/x.log");
    assert_eq!(cfg.log_max_size_kb, 512);
    assert_eq!(cfg.log_keep, 9);
}

#[test]
fn a_named_threshold_is_checked_against_the_default_of_the_other() {
    let source = ConfigSource::Parsed(PartialConfig { cutoff: Some(60), ..partial() });
    match Config::load(source) {
        Err(ConfigError::InvalidRange(s)) => {
            assert_eq!(s, "cutoff (60) must be strictly greater than resume (70)")
        }
        other => panic!("{:?}", other),
    }
}

#[test]
fn load_errors_come_from_the_file() {
    match Config::load(ConfigSource::Unreadable("denied".to_string())) {
        Err(ConfigError::Io(e)) => assert_eq!(e, "denied"),
        other => panic!("{:?}", other),
    }
    match Config::load(ConfigSource::Malformed("line 1".to_string())) {
        Err(ConfigError::Parse(e)) => assert_eq!(e, "line 1"),
        other => panic!("{:?}", other),
    }
}
